use vstd::prelude::*;

use crate::background::{cleared, empty_grid, locked, Background, GridView};
use crate::piece::Piece;
use crate::setting::{PIECE_COLORS, PIECE_KINDS, TETRIS_HEIGHT, TETRIS_WIDTH};

verus! {

/// Does no filled cell of `p`, shifted by `(dx, dy)`, land on a settled cell of `g`?
pub open spec fn clear_of(g: GridView, p: Piece, dx: int, dy: int) -> bool {
    forall|row: int, col: int| #[trigger]
        p.cell(row, col) ==> !g[p.y + row + dy][p.x + col + dx].0
}

/// Does `p`, shifted by `(dx, dy)`, lie on the board without overlapping a settled cell?
pub open spec fn fits(g: GridView, p: Piece, dx: int, dy: int) -> bool {
    p.self_fits(dx, dy) && clear_of(g, p, dx, dy)
}

/// The board once `p`, shifted by `(dx, dy)`, is settled and full rows are cleared.
pub open spec fn settle(g: GridView, p: Piece, dx: int, dy: int) -> GridView {
    cleared(locked(g, p.shifted(dx, dy)))
}

/// The board after lock-and-advance: `p` settles at `(dx, dy)`, and if `next`
/// then does not fit, the game is over and the board starts empty again.
pub open spec fn advance(g: GridView, p: Piece, dx: int, dy: int, next: Piece) -> GridView {
    if fits(settle(g, p, dx, dy), next, 0, 0) {
        settle(g, p, dx, dy)
    } else {
        empty_grid()
    }
}

/// The first row offset from `k` on at which `p` no longer fits, or the board
/// height if none below it does.
pub open spec fn first_blocked(g: GridView, p: Piece, k: int) -> int
    decreases TETRIS_HEIGHT - k,
{
    if k >= TETRIS_HEIGHT || !fits(g, p, 0, k) {
        k
    } else {
        first_blocked(g, p, k + 1)
    }
}

/// How many rows `p` falls on a hard drop.
pub open spec fn drop_distance(g: GridView, p: Piece) -> int {
    first_blocked(g, p, 1) - 1
}

/// Fitting is the same whether a piece is moved first or checked at an offset.
pub proof fn lemma_shifted_fits(g: GridView, p: Piece, dx: int, dy: int)
    requires
        i32::MIN <= p.x + dx <= i32::MAX,
        i32::MIN <= p.y + dy <= i32::MAX,
    ensures
        fits(g, p.shifted(dx, dy), 0, 0) == fits(g, p, dx, dy),
{
    let q = p.shifted(dx, dy);
    assert(q.x == p.x + dx && q.y == p.y + dy);
    if p.self_fits(dx, dy) {
        assert forall|row: int, col: int| #[trigger] q.cell(row, col) implies crate::piece::on_board(
            q.y + row + 0,
            q.x + col + 0,
        ) by {
            assert(p.cell(row, col));
        }
    }
    if q.self_fits(0, 0) {
        assert forall|row: int, col: int| #[trigger] p.cell(row, col) implies crate::piece::on_board(
            p.y + row + dy,
            p.x + col + dx,
        ) by {
            assert(q.cell(row, col));
        }
    }
    if clear_of(g, p, dx, dy) {
        assert forall|row: int, col: int| #[trigger] q.cell(row, col) implies !g[q.y + row + 0][q.x
            + col + 0].0 by {
            assert(p.cell(row, col));
        }
    }
    if clear_of(g, q, 0, 0) {
        assert forall|row: int, col: int| #[trigger] p.cell(row, col) implies !g[p.y + row + dy][p.x
            + col + dx].0 by {
            assert(q.cell(row, col));
        }
    }
}

proof fn lemma_first_blocked(g: GridView, p: Piece, k: int)
    requires
        1 <= k <= TETRIS_HEIGHT,
        forall|j: int| 0 <= j < k ==> #[trigger] fits(g, p, 0, j),
        p.wf(),
    ensures
        k <= first_blocked(g, p, k) <= TETRIS_HEIGHT,
        forall|j: int| 0 <= j < first_blocked(g, p, k) ==> #[trigger] fits(g, p, 0, j),
        !fits(g, p, 0, first_blocked(g, p, k)),
    decreases TETRIS_HEIGHT - k,
{
    if k >= TETRIS_HEIGHT {
        p.lemma_anchor_filled();
        assert(fits(g, p, 0, 0));
        let a = p.anchor();
        assert(p.cell(a.0, a.1));
    } else if fits(g, p, 0, k) {
        assert forall|j: int| 0 <= j < k + 1 implies #[trigger] fits(g, p, 0, j) by {
            if j < k {
                assert(fits(g, p, 0, j));
            }
        }
        lemma_first_blocked(g, p, k + 1);
    }
}

/// A hard drop lands the piece: it fits at every offset down to the drop
/// distance and no longer one row further.
pub proof fn lemma_drop_lands(g: GridView, p: Piece)
    requires
        p.wf(),
        fits(g, p, 0, 0),
    ensures
        0 <= drop_distance(g, p) < TETRIS_HEIGHT,
        forall|j: int| 0 <= j <= drop_distance(g, p) ==> #[trigger] fits(g, p, 0, j),
        !fits(g, p, 0, drop_distance(g, p) + 1),
{
    lemma_first_blocked(g, p, 1);
}

/// The falling piece and the settled board.
pub struct Tetris {
    now_piece: Piece,
    back_ground: Background,
}

impl Tetris {
    /// The settled board.
    pub closed spec fn board(&self) -> GridView {
        self.back_ground@
    }

    /// The falling piece.
    pub closed spec fn active(&self) -> Piece {
        self.now_piece
    }

    /// The board keeps its dimensions and the falling piece is well formed.
    pub closed spec fn parts_wf(&self) -> bool {
        self.back_ground.wf() && self.now_piece.wf()
    }

    /// Besides, the falling piece fits the board where it stands.
    pub closed spec fn wf(&self) -> bool {
        self.parts_wf() && fits(self.back_ground@, self.now_piece, 0, 0)
    }

    /// A game on an empty board with a random first piece.
    pub fn new() -> (t: Tetris)
        ensures
            t.wf(),
            t.board() == empty_grid(),
            t.active().is_spawn(),
            t.active().color < PIECE_COLORS,
    {
        let now_piece = Piece::random_piece();
        let back_ground = Background::new();
        proof {
            now_piece.lemma_spawn_fits();
        }
        Tetris { now_piece, back_ground }
    }

    /// A game resumed from a board and a falling piece, if the piece is well
    /// formed and fits the board where it stands.
    pub fn from_parts(back_ground: Background, piece: Piece) -> (t: Option<Tetris>)
        requires
            back_ground.wf(),
        ensures
            t.is_some() <==> piece.wf() && fits(back_ground@, piece, 0, 0),
            t matches Some(t) ==> t.wf() && t.board() == back_ground@ && t.active() == piece,
    {
        if piece.piece_type >= PIECE_KINDS || piece.turn < 0 || piece.turn >= 4 {
            return None;
        }
        let t = Tetris { now_piece: piece, back_ground };
        if t.fits_at(0, 0) {
            Some(t)
        } else {
            None
        }
    }

    /// The falling piece.
    pub fn piece(&self) -> (p: Piece)
        ensures
            p == self.active(),
    {
        self.now_piece
    }

    /// The settled board.
    pub fn background(&self) -> (b: &Background)
        ensures
            b@ == self.board(),
            self.wf() ==> b.wf(),
    {
        &self.back_ground
    }

    /// Is board cell `(r, c)` settled?
    pub fn occupied(&self, r: usize, c: usize) -> (o: bool)
        requires
            self.wf(),
            r < TETRIS_HEIGHT,
            c < TETRIS_WIDTH,
        ensures
            o == self.board()[r as int][c as int].0,
    {
        self.back_ground.occupied(r, c)
    }

    /// The palette slot of board cell `(r, c)`.
    pub fn color_at(&self, r: usize, c: usize) -> (k: usize)
        requires
            self.wf(),
            r < TETRIS_HEIGHT,
            c < TETRIS_WIDTH,
        ensures
            k == self.board()[r as int][c as int].1,
    {
        self.back_ground.color_at(r, c)
    }

    /// Does no filled cell of the piece, shifted by `(dx, dy)`, overlap a settled cell?
    fn piece_fit(&self, dx: i32, dy: i32) -> (b: bool)
        requires
            self.back_ground.wf(),
            self.now_piece.wf(),
            self.now_piece.self_fits(dx as int, dy as int),
        ensures
            b == clear_of(self.back_ground@, self.now_piece, dx as int, dy as int),
    {
        let p = self.now_piece;
        proof {
            self.back_ground.lemma_shape();
        }
        let mut row: usize = 0;
        while row < 4
            invariant
                self.back_ground.wf(),
                p == self.now_piece,
                p.wf(),
                p.self_fits(dx as int, dy as int),
                row <= 4,
                forall|r: int, c: int|
                    0 <= r < row && #[trigger] p.cell(r, c) ==> !self.back_ground@[p.y + r
                        + dy][p.x + c + dx].0,
            decreases 4 - row,
        {
            let mut col: usize = 0;
            while col < 4
                invariant
                    self.back_ground.wf(),
                    p == self.now_piece,
                    p.wf(),
                    p.self_fits(dx as int, dy as int),
                    row < 4,
                    col <= 4,
                    forall|r: int, c: int|
                        (0 <= r < row || (r == row && c < col)) && #[trigger] p.cell(r, c)
                            ==> !self.back_ground@[p.y + r + dy][p.x + c + dx].0,
                decreases 4 - col,
            {
                if p.occupies_at(row, col) {
                    assert(p.cell(row as int, col as int));
                    let r = (p.y as i64 + row as i64 + dy as i64) as usize;
                    let c = (p.x as i64 + col as i64 + dx as i64) as usize;
                    if self.back_ground.occupied(r, c) {
                        return false;
                    }
                }
                col += 1;
            }
            row += 1;
        }
        true
    }

    /// Does the piece, shifted by `(dx, dy)`, lie on the board without overlapping
    /// a settled cell?
    pub fn fits_at(&self, dx: i32, dy: i32) -> (b: bool)
        requires
            self.parts_wf(),
        ensures
            b == fits(self.board(), self.active(), dx as int, dy as int),
    {
        self.now_piece.piece_fit(dx, dy) && self.piece_fit(dx, dy)
    }

    /// Empties the board, keeping the falling piece.
    fn reset(&mut self)
        requires
            old(self).now_piece.wf(),
            old(self).now_piece.self_fits(0, 0),
        ensures
            final(self).wf(),
            final(self).board() == empty_grid(),
            final(self).active() == old(self).active(),
    {
        self.back_ground = Background::new();
        assert(clear_of(self.back_ground@, self.now_piece, 0, 0));
    }

    /// Lock-and-advance: the piece moves by `(dx, dy)` and settles, full rows are
    /// cleared and `next` becomes the falling piece. If `next` then does not fit,
    /// the game is over and the board is emptied. Returns whether the game was over.
    fn check_finish_line(&mut self, dx: i32, dy: i32, next: Piece) -> (over: bool)
        requires
            old(self).wf(),
            fits(old(self).board(), old(self).active(), dx as int, dy as int),
            next.is_spawn(),
        ensures
            final(self).wf(),
            final(self).active() == next,
            final(self).board() == advance(
                old(self).board(),
                old(self).active(),
                dx as int,
                dy as int,
                next,
            ),
            over == !fits(
                settle(old(self).board(), old(self).active(), dx as int, dy as int),
                next,
                0,
                0,
            ),
    {
        proof {
            self.now_piece.lemma_fit_bounds(dx as int, dy as int);
            next.lemma_spawn_fits();
        }
        self.now_piece.move_piece(dx, dy);
        self.back_ground.store(self.now_piece);
        self.now_piece = next;
        let _ = self.back_ground.finish_line();
        if !self.fits_at(0, 0) {
            self.reset();
            true
        } else {
            false
        }
    }

    /// One step of the game clock: the piece falls one row if it fits there, and
    /// otherwise settles where it stands and `next` takes its place (lock-and-advance).
    /// Returns whether the game was over.
    pub fn update_with(&mut self, next: Piece) -> (over: bool)
        requires
            old(self).wf(),
            next.is_spawn(),
        ensures
            final(self).wf(),
            fits(old(self).board(), old(self).active(), 0, 1) ==> {
                &&& final(self).board() == old(self).board()
                &&& final(self).active() == old(self).active().shifted(0, 1)
                &&& !over
            },
            !fits(old(self).board(), old(self).active(), 0, 1) ==> {
                &&& final(self).board() == advance(old(self).board(), old(self).active(), 0, 0, next)
                &&& final(self).active() == next
                &&& over == !fits(settle(old(self).board(), old(self).active(), 0, 0), next, 0, 0)
            },
    {
        if self.fits_at(0, 1) {
            proof {
                self.now_piece.lemma_fit_bounds(0, 1);
                lemma_shifted_fits(self.back_ground@, self.now_piece, 0, 1);
            }
            self.now_piece.move_piece(0, 1);
            false
        } else {
            self.check_finish_line(0, 0, next)
        }
    }

    /// One step of the game clock, with a random next piece.
    /// Returns whether the game was over.
    pub fn update(&mut self) -> (over: bool)
        requires
            old(self).wf(),
        ensures
            final(self).wf(),
            fits(old(self).board(), old(self).active(), 0, 1) ==> {
                &&& final(self).board() == old(self).board()
                &&& final(self).active() == old(self).active().shifted(0, 1)
                &&& !over
            },
            !fits(old(self).board(), old(self).active(), 0, 1) ==> {
                &&& final(self).active().is_spawn()
                &&& final(self).active().color < PIECE_COLORS
                &&& final(self).board() == advance(
                    old(self).board(),
                    old(self).active(),
                    0,
                    0,
                    final(self).active(),
                )
                &&& over == !fits(
                    settle(old(self).board(), old(self).active(), 0, 0),
                    final(self).active(),
                    0,
                    0,
                )
            },
    {
        let next = Piece::random_piece();
        self.update_with(next)
    }

    /// Moves the piece by `(dx, dy)` if it fits there; otherwise nothing changes.
    /// Never settles the piece.
    pub fn move_piece(&mut self, dx: i32, dy: i32)
        requires
            old(self).wf(),
        ensures
            final(self).wf(),
            fits(final(self).board(), final(self).active(), 0, 0),
            final(self).board() == old(self).board(),
            final(self).active() == if fits(old(self).board(), old(self).active(), dx as int, dy as int) {
                old(self).active().shifted(dx as int, dy as int)
            } else {
                old(self).active()
            },
    {
        if self.fits_at(dx, dy) {
            proof {
                self.now_piece.lemma_fit_bounds(dx as int, dy as int);
                lemma_shifted_fits(self.back_ground@, self.now_piece, dx as int, dy as int);
            }
            self.now_piece.move_piece(dx, dy);
        }
    }

    /// Turns the piece a quarter clockwise in place if it fits so; otherwise
    /// nothing changes.
    pub fn turn(&mut self)
        requires
            old(self).wf(),
        ensures
            final(self).wf(),
            fits(final(self).board(), final(self).active(), 0, 0),
            final(self).board() == old(self).board(),
            final(self).active() == if fits(old(self).board(), old(self).active().turned(), 0, 0) {
                old(self).active().turned()
            } else {
                old(self).active()
            },
    {
        let saved = self.now_piece.turn;
        self.now_piece.turn = (saved + 1) % 4;
        if !self.fits_at(0, 0) {
            self.now_piece.turn = saved;
        }
    }

    /// How many rows the piece would fall on a hard drop; the landing preview.
    pub fn ghost_offset(&self) -> (d: i32)
        requires
            self.wf(),
        ensures
            d == drop_distance(self.board(), self.active()),
            0 <= d < TETRIS_HEIGHT,
            fits(self.board(), self.active(), 0, d as int),
    {
        let mut k: i32 = 1;
        while k < TETRIS_HEIGHT as i32 && self.fits_at(0, k)
            invariant
                self.wf(),
                1 <= k <= TETRIS_HEIGHT,
                fits(self.board(), self.active(), 0, k - 1),
                first_blocked(self.board(), self.active(), 1) == first_blocked(
                    self.board(),
                    self.active(),
                    k as int,
                ),
            decreases TETRIS_HEIGHT - k,
        {
            k += 1;
        }
        k - 1
    }

    /// Drops the piece as far as it fits, settles it there and lets `next` take
    /// its place (lock-and-advance). Returns whether the game was over.
    pub fn speed_drop_with(&mut self, next: Piece) -> (over: bool)
        requires
            old(self).wf(),
            next.is_spawn(),
        ensures
            final(self).wf(),
            final(self).active() == next,
            final(self).board() == advance(
                old(self).board(),
                old(self).active(),
                0,
                drop_distance(old(self).board(), old(self).active()),
                next,
            ),
            over == !fits(
                settle(
                    old(self).board(),
                    old(self).active(),
                    0,
                    drop_distance(old(self).board(), old(self).active()),
                ),
                next,
                0,
                0,
            ),
    {
        let d = self.ghost_offset();
        self.check_finish_line(0, d, next)
    }

    /// Hard drop with a random next piece. Returns whether the game was over.
    pub fn speed_drop(&mut self) -> (over: bool)
        requires
            old(self).wf(),
        ensures
            final(self).wf(),
            final(self).active().is_spawn(),
            final(self).active().color < PIECE_COLORS,
            final(self).board() == advance(
                old(self).board(),
                old(self).active(),
                0,
                drop_distance(old(self).board(), old(self).active()),
                final(self).active(),
            ),
            over == !fits(
                settle(
                    old(self).board(),
                    old(self).active(),
                    0,
                    drop_distance(old(self).board(), old(self).active()),
                ),
                final(self).active(),
                0,
                0,
            ),
    {
        let next = Piece::random_piece();
        self.speed_drop_with(next)
    }
}

} // verus!
