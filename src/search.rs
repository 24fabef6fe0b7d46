use vstd::prelude::*;
use crate::board::{Piece, GameEngine, opponent_of, get_opponent};
use crate::action::{Action, EngineError, apply_spec};
use crate::movegen::legal_actions;
use crate::eval::{evaluation, lemma_evaluation_bounded, WIN_SCORE};

verus! {

/// Bound on every score of the search, beyond any score of a board.
pub const INF: i32 = 1_000_000_000;

/// A score at which the game counts as decided.
pub open spec fn decided(s: int) -> bool {
    s >= WIN_SCORE / 2 || s <= -(WIN_SCORE / 2)
}

/// Full-width negamax: the score of `b` for `p` looking `depth` moves ahead,
/// and the first action that reaches it. A decided board, depth zero or a
/// player with no legal action gives the static score and no action.
pub open spec fn negamax(b: Seq<Piece>, p: Piece, depth: nat) -> (int, Option<Action>)
    decreases depth, 1nat, 0nat,
{
    let s = evaluation(b, p);
    if depth == 0 || decided(s) {
        (s, None)
    } else {
        let acts = legal_actions(b, p);
        if acts.len() == 0 {
            (s, None)
        } else {
            best_of(b, p, depth, acts, acts.len())
        }
    }
}

/// The best of the first `n` actions of `acts` for `p` on `b`, each scored as
/// the negated negamax score of the board it leads to; the first one wins a
/// tie, an action the board refuses is passed over, and `-INF` with no action
/// stands for none at all.
pub open spec fn best_of(b: Seq<Piece>, p: Piece, depth: nat, acts: Seq<Action>, n: nat) -> (
    int,
    Option<Action>,
)
    decreases depth, 0nat, n,
{
    if depth == 0 || n == 0 {
        (-INF as int, None)
    } else {
        let prev = best_of(b, p, depth, acts, (n - 1) as nat);
        let a = acts[n - 1];
        match apply_spec(b, a) {
            Err(_) => prev,
            Ok(nb) => {
                let v = -negamax(nb, opponent_of(p), (depth - 1) as nat).0;
                if v > prev.0 {
                    (v, Some(a))
                } else {
                    prev
                }
            },
        }
    }
}

proof fn lemma_negamax_bounded(b: Seq<Piece>, p: Piece, depth: nat)
    ensures
        -INF <= negamax(b, p, depth).0 <= INF,
    decreases depth, 1nat, 0nat,
{
    lemma_evaluation_bounded(b, p, 25);
    let acts = legal_actions(b, p);
    if depth > 0 && !decided(evaluation(b, p)) && acts.len() > 0 {
        lemma_best_of_bounded(b, p, depth, acts, acts.len());
    }
}

proof fn lemma_best_of_bounded(b: Seq<Piece>, p: Piece, depth: nat, acts: Seq<Action>, n: nat)
    ensures
        -INF <= best_of(b, p, depth, acts, n).0 <= INF,
    decreases depth, 0nat, n,
{
    if depth > 0 && n > 0 {
        lemma_best_of_bounded(b, p, depth, acts, (n - 1) as nat);
        if let Ok(nb) = apply_spec(b, acts[n - 1]) {
            lemma_negamax_bounded(nb, opponent_of(p), (depth - 1) as nat);
        }
    }
}

proof fn lemma_best_of_monotone(
    b: Seq<Piece>,
    p: Piece,
    depth: nat,
    acts: Seq<Action>,
    k: nat,
    n: nat,
)
    requires
        k <= n,
    ensures
        best_of(b, p, depth, acts, k).0 <= best_of(b, p, depth, acts, n).0,
    decreases n,
{
    if k < n {
        lemma_best_of_monotone(b, p, depth, acts, k, (n - 1) as nat);
    }
}

proof fn lemma_best_of_saturated(
    b: Seq<Piece>,
    p: Piece,
    depth: nat,
    acts: Seq<Action>,
    k: nat,
    n: nat,
)
    requires
        k <= n,
        best_of(b, p, depth, acts, k).0 == INF,
    ensures
        best_of(b, p, depth, acts, n) == best_of(b, p, depth, acts, k),
    decreases n,
{
    if k < n {
        lemma_best_of_saturated(b, p, depth, acts, k, (n - 1) as nat);
        if let Ok(nb) = apply_spec(b, acts[n - 1]) {
            lemma_negamax_bounded(nb, opponent_of(p), (depth - 1) as nat);
        }
    }
}

/// What a search with window `(alpha, beta)` owes about its score `s`, where
/// `v` is the full-width score: at or below the window `s` bounds `v` from
/// above, at or above it from below, and inside it `s` is `v` itself.
pub open spec fn within_window(v: int, alpha: int, beta: int, s: int) -> bool {
    &&& s <= alpha ==> v <= s
    &&& s >= beta ==> v >= s
    &&& alpha < s < beta ==> v == s
}

impl GameEngine {
    /// Negamax search with alpha-beta pruning over the window `(alpha, beta)`:
    /// the score for `player` looking `depth` moves ahead and the action that
    /// reaches it. With the full window it is exactly the full-width result.
    pub fn alpha_beta(&self, player: Piece, depth: usize, alpha: i32, beta: i32) -> (r: (
        i32,
        Option<Action>,
    ))
        requires
            self.wf(),
            -INF <= alpha < beta <= INF,
        ensures
            -INF <= r.0 <= INF,
            within_window(negamax(self@, player, depth as nat).0, alpha as int, beta as int, r.0 as int),
            (alpha == -INF && beta == INF) ==> (r.0 as int, r.1) == negamax(self@, player, depth as nat),
        decreases depth,
    {
        let score = self.evaluate(player);
        proof {
            lemma_evaluation_bounded(self@, player, 25);
        }
        if depth == 0 || score >= WIN_SCORE / 2 || score <= -(WIN_SCORE / 2) {
            return (score, None);
        }
        let legal = self.generate_legal_actions(player);
        if legal.len() == 0 {
            return (score, None);
        }
        let opponent = get_opponent(player);
        let ghost acts = legal@;
        let ghost d = depth as nat;
        let ghost alpha0 = alpha as int;
        let mut lo: i32 = alpha;
        let mut best_score: i32 = -INF;
        let mut best_action: Option<Action> = None;
        let mut k: usize = 0;
        while k < legal.len()
            invariant
                self.wf(),
                legal@ == acts,
                acts == legal_actions(self@, player),
                acts.len() > 0,
                depth > 0,
                d == depth,
                !decided(evaluation(self@, player)),
                -INF <= alpha0 < beta <= INF,
                alpha0 == alpha,
                k <= acts.len(),
                opponent == opponent_of(player),
                -INF <= best_score <= INF,
                lo == if best_score > alpha0 { best_score as int } else { alpha0 },
                lo < beta,
                best_score <= alpha0 ==> best_of(self@, player, d, acts, k as nat).0 <= best_score,
                best_score > alpha0 ==> best_of(self@, player, d, acts, k as nat).0 == best_score,
                (alpha0 == -INF && beta == INF) ==> (best_score as int, best_action) == best_of(
                    self@,
                    player,
                    d,
                    acts,
                    k as nat,
                ),
            decreases acts.len() - k,
        {
            let action = legal[k];
            let mut next = self.duplicate();
            match next.apply_action(&action) {
                Ok(()) => {
                    let child = next.alpha_beta(opponent, depth - 1, -beta, -lo);
                    proof {
                        lemma_negamax_bounded(next@, opponent, (depth - 1) as nat);
                    }
                    let current = -child.0;
                    if current > best_score {
                        best_score = current;
                        best_action = Some(action);
                    }
                    if best_score > lo {
                        lo = best_score;
                    }
                    if lo >= beta {
                        proof {
                            let kk = (k + 1) as nat;
                            lemma_best_of_monotone(self@, player, d, acts, kk, acts.len());
                            if alpha0 == -INF && beta == INF {
                                lemma_best_of_saturated(self@, player, d, acts, kk, acts.len());
                            }
                        }
                        return (best_score, best_action);
                    }
                },
                Err(_) => {},
            }
            k += 1;
        }
        (best_score, best_action)
    }

    /// The action the search picks for `player` looking `depth` moves ahead,
    /// or `NoLegalAction` where it picks none.
    pub fn calc_best_action(&self, player: Piece, depth: usize) -> (r: Result<Action, EngineError>)
        requires
            self.wf(),
        ensures
            match negamax(self@, player, depth as nat).1 {
                Some(a) => r == Ok::<Action, EngineError>(a),
                None => r == Err::<Action, EngineError>(EngineError::NoLegalAction),
            },
    {
        let (_score, best) = self.alpha_beta(player, depth, -INF, INF);
        match best {
            Some(a) => Ok(a),
            None => Err(EngineError::NoLegalAction),
        }
    }
}

/// The search is a function of the board, the player and the depth alone:
/// equal boards give equal scores and equal chosen actions.
pub proof fn lemma_search_deterministic(b1: Seq<Piece>, b2: Seq<Piece>, p: Piece, depth: nat)
    requires
        b1 == b2,
    ensures
        negamax(b1, p, depth) == negamax(b2, p, depth),
{
}

} // verus!
