use vstd::prelude::*;

verus! {

/// Width (and height) of the square board.
pub const BOARD_WIDTH: usize = 5;

/// Number of cells on the board.
pub const BOARD_SIZE: usize = 25;

/// Number of pieces each player owns in total.
pub const MAX_PIECES_PER_PLAYER: usize = 5;

/// What a cell of the board holds.
#[derive(Clone, Copy, Debug, PartialEq, Eq, Structural)]
pub enum Piece {
    Empty,
    Player1,
    Player2,
}

/// Numeric code of a cell value: 0 for empty, 1 and 2 for the players.
pub open spec fn code_of(p: Piece) -> u8 {
    match p {
        Piece::Empty => 0,
        Piece::Player1 => 1,
        Piece::Player2 => 2,
    }
}

/// The other player; `Empty` has no opponent and maps to itself.
pub open spec fn opponent_of(p: Piece) -> Piece {
    match p {
        Piece::Player1 => Piece::Player2,
        Piece::Player2 => Piece::Player1,
        Piece::Empty => Piece::Empty,
    }
}

/// Column of a cell index.
pub open spec fn x_of(i: int) -> int {
    i % 5
}

/// Row of a cell index.
pub open spec fn y_of(i: int) -> int {
    i / 5
}

/// Cell index of a column and row.
pub open spec fn idx(x: int, y: int) -> int {
    y * 5 + x
}

/// Whether a column and row lie on the board.
pub open spec fn in_bounds(x: int, y: int) -> bool {
    0 <= x < 5 && 0 <= y < 5
}

/// Number of cells among the first `n` of `b` that hold `p`.
pub open spec fn count_upto(b: Seq<Piece>, p: Piece, n: int) -> nat
    decreases n,
{
    if n <= 0 {
        0
    } else {
        count_upto(b, p, n - 1) + if b[n - 1] == p { 1nat } else { 0nat }
    }
}

/// Number of cells of `b` that hold `p`.
pub open spec fn count(b: Seq<Piece>, p: Piece) -> nat {
    count_upto(b, p, b.len() as int)
}

/// Pieces of `p` not yet on the board: five less those placed, never below zero.
pub open spec fn hand_count(b: Seq<Piece>, p: Piece) -> int {
    if count(b, p) >= 5 {
        0
    } else {
        5 - count(b, p)
    }
}

/// A board of the right size.
pub open spec fn board_wf(b: Seq<Piece>) -> bool {
    b.len() == 25
}

/// The board with every cell empty.
pub open spec fn empty_board() -> Seq<Piece> {
    Seq::new(25, |i: int| Piece::Empty)
}

/// The engine: owns one board and answers every query against it.
#[derive(Clone, Debug)]
pub struct GameEngine {
    pub(crate) board: Vec<Piece>,
}

/// The other player; `Empty` maps to itself.
pub fn get_opponent(player: Piece) -> (r: Piece)
    ensures
        r == opponent_of(player),
{
    match player {
        Piece::Player1 => Piece::Player2,
        Piece::Player2 => Piece::Player1,
        Piece::Empty => Piece::Empty,
    }
}

fn empty_cells() -> (r: Vec<Piece>)
    ensures
        r@ == empty_board(),
{
    let mut v: Vec<Piece> = Vec::new();
    let mut i: usize = 0;
    while i < BOARD_SIZE
        invariant
            i <= 25,
            v@ == Seq::new(i as nat, |k: int| Piece::Empty),
        decreases 25 - i,
    {
        v.push(Piece::Empty);
        i += 1;
    }
    assert(v@ =~= empty_board());
    v
}

impl GameEngine {
    /// The cells of the board, in index order.
    pub closed spec fn view(&self) -> Seq<Piece> {
        self.board@
    }

    /// The board always has exactly 25 cells.
    pub open spec fn wf(&self) -> bool {
        board_wf(self@)
    }

    /// A fresh engine with an empty board.
    pub fn new() -> (r: GameEngine)
        ensures
            r.wf(),
            r@ == empty_board(),
    {
        GameEngine { board: empty_cells() }
    }

    /// Empties every cell.
    pub fn reset(&mut self)
        ensures
            final(self).wf(),
            final(self)@ == empty_board(),
    {
        self.board = empty_cells();
    }

    /// The 25 cell codes (0 empty, 1 and 2 the players), in index order.
    pub fn get_board(&self) -> (r: Vec<u8>)
        requires
            self.wf(),
        ensures
            r@.len() == 25,
            forall|i: int| 0 <= i < 25 ==> r@[i] == code_of(#[trigger] self@[i]),
    {
        let mut out: Vec<u8> = Vec::new();
        let mut i: usize = 0;
        while i < BOARD_SIZE
            invariant
                i <= 25,
                self.wf(),
                out@.len() == i,
                forall|k: int| 0 <= k < i ==> out@[k] == code_of(#[trigger] self@[k]),
            decreases 25 - i,
        {
            let c: u8 = match self.board[i] {
                Piece::Empty => 0,
                Piece::Player1 => 1,
                Piece::Player2 => 2,
            };
            out.push(c);
            i += 1;
        }
        out
    }

    /// Pieces of `player` not yet on the board: five less those placed, never below zero.
    pub fn get_hand_count(&self, player: Piece) -> (r: u8)
        requires
            self.wf(),
        ensures
            r == hand_count(self@, player),
    {
        let mut placed: usize = 0;
        let mut i: usize = 0;
        while i < BOARD_SIZE
            invariant
                i <= 25,
                self.wf(),
                placed == count_upto(self@, player, i as int),
                placed <= i,
            decreases 25 - i,
        {
            if self.board[i] == player {
                placed += 1;
            }
            i += 1;
        }
        if placed >= MAX_PIECES_PER_PLAYER {
            0
        } else {
            (MAX_PIECES_PER_PLAYER - placed) as u8
        }
    }

    /// An independent engine holding the same board.
    pub fn duplicate(&self) -> (r: GameEngine)
        requires
            self.wf(),
        ensures
            r.wf(),
            r@ == self@,
    {
        let mut cells: Vec<Piece> = Vec::new();
        let mut i: usize = 0;
        while i < BOARD_SIZE
            invariant
                self.wf(),
                i <= 25,
                cells@ == self@.subrange(0, i as int),
            decreases 25 - i,
        {
            cells.push(self.board[i]);
            proof {
                assert(cells@ =~= self@.subrange(0, i + 1));
            }
            i += 1;
        }
        assert(cells@ =~= self@);
        GameEngine { board: cells }
    }

    /// Sets one cell; used by the applier.
    pub(crate) fn set_cell(&mut self, i: usize, p: Piece)
        requires
            old(self).wf(),
            i < 25,
        ensures
            final(self).wf(),
            final(self)@ == old(self)@.update(i as int, p),
    {
        self.board.set(i, p);
    }

    /// The value of one cell.
    pub fn cell(&self, i: usize) -> (r: Piece)
        requires
            self.wf(),
            i < 25,
        ensures
            r == self@[i as int],
    {
        self.board[i]
    }
}

} // verus!
