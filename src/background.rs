use vstd::prelude::*;

use crate::piece::{on_board, Piece};
use crate::setting::{EMPTY_COLOR, TETRIS_HEIGHT, TETRIS_WIDTH};

verus! {

/// One board cell: is it settled, and its palette slot.
pub type CellView = (bool, usize);

/// The board as rows of cells, row 0 on top.
pub type GridView = Seq<Seq<CellView>>;

/// A row with no settled cell.
pub open spec fn empty_row() -> Seq<CellView> {
    Seq::new(TETRIS_WIDTH as nat, |c: int| (false, EMPTY_COLOR))
}

/// A board with no settled cell.
pub open spec fn empty_grid() -> GridView {
    Seq::new(TETRIS_HEIGHT as nat, |r: int| empty_row())
}

/// Is every cell of the row settled?
pub open spec fn row_full(row: Seq<CellView>) -> bool {
    forall|c: int| 0 <= c < row.len() ==> #[trigger] row[c].0
}

/// The rows that are not full, in their order.
pub open spec fn kept_rows(rows: GridView) -> GridView
    decreases rows.len(),
{
    if rows.len() == 0 {
        rows
    } else if row_full(rows[0]) {
        kept_rows(rows.drop_first())
    } else {
        seq![rows[0]] + kept_rows(rows.drop_first())
    }
}

/// The board after line clearing: the rows that were not full sink to the
/// bottom in their order, and empty rows fill the top.
pub open spec fn cleared(g: GridView) -> GridView {
    Seq::new((g.len() - kept_rows(g).len()) as nat, |i: int| empty_row()) + kept_rows(g)
}

/// The board after the cells of piece `p` are settled in it, in `p`'s palette slot.
pub open spec fn locked(g: GridView, p: Piece) -> GridView {
    Seq::new(
        g.len(),
        |r: int|
            Seq::new(
                g[r].len(),
                |c: int|
                    if p.covers(r, c) {
                        (true, p.color)
                    } else {
                        g[r][c]
                    },
            ),
    )
}

/// `locked` restricted to the first `n` local cells of `p` in row-major order.
spec fn stamped(g: GridView, p: Piece, n: int) -> GridView {
    Seq::new(
        g.len(),
        |r: int|
            Seq::new(
                g[r].len(),
                |c: int|
                    if p.covers(r, c) && (r - p.y) * 4 + (c - p.x) < n {
                        (true, p.color)
                    } else {
                        g[r][c]
                    },
            ),
    )
}

proof fn lemma_kept_len(rows: GridView)
    ensures
        kept_rows(rows).len() <= rows.len(),
    decreases rows.len(),
{
    if rows.len() > 0 {
        lemma_kept_len(rows.drop_first());
    }
}

proof fn lemma_kept_all(rows: GridView)
    requires
        forall|i: int| 0 <= i < rows.len() ==> !row_full(#[trigger] rows[i]),
    ensures
        kept_rows(rows) == rows,
    decreases rows.len(),
{
    if rows.len() > 0 {
        assert(!row_full(rows[0]));
        lemma_kept_all(rows.drop_first());
        assert(seq![rows[0]] + rows.drop_first() =~= rows);
    }
}

proof fn lemma_kept_empty(rows: GridView)
    requires
        forall|i: int|
            0 <= i < rows.len() ==> row_full(#[trigger] rows[i]) || rows[i] == empty_row(),
    ensures
        forall|i: int| 0 <= i < kept_rows(rows).len() ==> #[trigger] kept_rows(rows)[i] == empty_row(),
    decreases rows.len(),
{
    if rows.len() > 0 {
        let t = rows.drop_first();
        lemma_kept_empty(t);
        if !row_full(rows[0]) {
            let k = kept_rows(rows);
            assert(k == seq![rows[0]] + kept_rows(t));
            assert forall|i: int| 0 <= i < k.len() implies #[trigger] k[i] == empty_row() by {
                if i > 0 {
                    assert(k[i] == kept_rows(t)[i - 1]);
                }
            }
        }
    }
}

/// Clearing lines on a board where no row is full changes nothing.
pub proof fn lemma_clear_without_full_rows(g: GridView)
    requires
        forall|r: int| 0 <= r < g.len() ==> !row_full(#[trigger] g[r]),
    ensures
        kept_rows(g) == g,
        cleared(g) == g,
{
    lemma_kept_all(g);
    assert(cleared(g) =~= g);
}

/// Settling a piece that completes one row of an otherwise empty board, all of
/// its cells in that row, and then clearing lines, leaves the board empty.
pub proof fn lemma_single_row_round_trip(g: GridView, p: Piece, row: int)
    requires
        g.len() == TETRIS_HEIGHT,
        forall|r: int| 0 <= r < TETRIS_HEIGHT ==> #[trigger] g[r].len() == TETRIS_WIDTH,
        0 <= row < TETRIS_HEIGHT,
        forall|r: int| 0 <= r < TETRIS_HEIGHT && r != row ==> #[trigger] g[r] == empty_row(),
        forall|c: int| 0 <= c < TETRIS_WIDTH ==> g[row][c].0 || p.covers(row, c),
        forall|r: int, c: int| #[trigger] p.covers(r, c) ==> r == row,
    ensures
        cleared(locked(g, p)) == empty_grid(),
{
    let h = locked(g, p);
    assert forall|i: int| 0 <= i < h.len() implies row_full(#[trigger] h[i]) || h[i] == empty_row() by {
        if i != row {
            assert(h[i] =~= empty_row());
        } else {
            assert forall|c: int| 0 <= c < h[i].len() implies #[trigger] h[i][c].0 by {
                assert(g[row][c].0 || p.covers(row, c));
            }
        }
    }
    lemma_kept_empty(h);
    lemma_kept_len(h);
    assert(cleared(h) =~= empty_grid());
}

/// The settled cells of the board, each with its palette slot.
pub struct Background {
    record: Vec<bool>,
    color_map: Vec<usize>,
}

impl View for Background {
    type V = GridView;

    closed spec fn view(&self) -> GridView {
        Seq::new(
            TETRIS_HEIGHT as nat,
            |r: int|
                Seq::new(
                    TETRIS_WIDTH as nat,
                    |c: int|
                        (
                            self.record@[r * TETRIS_WIDTH + c],
                            self.color_map@[r * TETRIS_WIDTH + c],
                        ),
                ),
        )
    }
}

impl Background {
    /// The board keeps its dimensions.
    pub closed spec fn wf(&self) -> bool {
        &&& self.record@.len() == TETRIS_HEIGHT * TETRIS_WIDTH
        &&& self.color_map@.len() == TETRIS_HEIGHT * TETRIS_WIDTH
    }

    /// The board has `TETRIS_HEIGHT` rows of `TETRIS_WIDTH` cells.
    pub proof fn lemma_shape(&self)
        ensures
            self@.len() == TETRIS_HEIGHT,
            forall|r: int| 0 <= r < TETRIS_HEIGHT ==> #[trigger] self@[r].len() == TETRIS_WIDTH,
    {
    }

    /// An empty board.
    pub fn new() -> (b: Background)
        ensures
            b.wf(),
            b@ == empty_grid(),
    {
        let b = Background {
            record: vec![false; TETRIS_HEIGHT * TETRIS_WIDTH],
            color_map: vec![EMPTY_COLOR; TETRIS_HEIGHT * TETRIS_WIDTH],
        };
        assert(b@ =~~= empty_grid());
        b
    }

    /// Is board cell `(r, c)` settled?
    pub fn occupied(&self, r: usize, c: usize) -> (o: bool)
        requires
            self.wf(),
            r < TETRIS_HEIGHT,
            c < TETRIS_WIDTH,
        ensures
            o == self@[r as int][c as int].0,
    {
        self.record[r * TETRIS_WIDTH + c]
    }

    /// The palette slot of board cell `(r, c)`.
    pub fn color_at(&self, r: usize, c: usize) -> (k: usize)
        requires
            self.wf(),
            r < TETRIS_HEIGHT,
            c < TETRIS_WIDTH,
        ensures
            k == self@[r as int][c as int].1,
    {
        self.color_map[r * TETRIS_WIDTH + c]
    }

    /// Does local cell `(row, col)` of piece `p` fall on the board?
    pub fn in_boundary(&self, p: Piece, row: i32, col: i32) -> (b: bool)
        ensures
            b == on_board(p.y + row, p.x + col),
    {
        let r = p.y as i64 + row as i64;
        let c = p.x as i64 + col as i64;
        !(r >= TETRIS_HEIGHT as i64 || r < 0 || c >= TETRIS_WIDTH as i64 || c < 0)
    }

    /// Settles cell `(r, c)` in palette slot `color`.
    fn set_cell(&mut self, r: usize, c: usize, color: usize)
        requires
            old(self).wf(),
            r < TETRIS_HEIGHT,
            c < TETRIS_WIDTH,
        ensures
            final(self).wf(),
            final(self)@ == old(self)@.update(
                r as int,
                old(self)@[r as int].update(c as int, (true, color)),
            ),
    {
        let i = r * TETRIS_WIDTH + c;
        self.record.set(i, true);
        self.color_map.set(i, color);
        assert(self@ =~~= old(self)@.update(r as int, old(self)@[r as int].update(c as int, (true, color))));
    }

    /// Settles the cells of piece `p` that fall on the board; the others are ignored.
    pub fn store(&mut self, p: Piece)
        requires
            old(self).wf(),
            p.wf(),
        ensures
            final(self).wf(),
            final(self)@ == locked(old(self)@, p),
    {
        let ghost g = self@;
        assert(self@ =~~= stamped(g, p, 0));
        let mut row: usize = 0;
        while row < 4
            invariant
                self.wf(),
                p.wf(),
                row <= 4,
                self@ == stamped(g, p, row * 4),
                g.len() == TETRIS_HEIGHT,
                forall|r: int| 0 <= r < TETRIS_HEIGHT ==> #[trigger] g[r].len() == TETRIS_WIDTH,
            decreases 4 - row,
        {
            let mut col: usize = 0;
            while col < 4
                invariant
                    self.wf(),
                    p.wf(),
                    row < 4,
                    col <= 4,
                    self@ == stamped(g, p, row * 4 + col),
                    g.len() == TETRIS_HEIGHT,
                    forall|r: int| 0 <= r < TETRIS_HEIGHT ==> #[trigger] g[r].len() == TETRIS_WIDTH,
                decreases 4 - col,
            {
                let ghost n = row * 4 + col;
                if p.occupies_at(row, col) && self.in_boundary(p, row as i32, col as i32) {
                    let r = (p.y as i64 + row as i64) as usize;
                    let c = (p.x as i64 + col as i64) as usize;
                    self.set_cell(r, c, p.color);
                    assert(self@ =~~= stamped(g, p, n + 1));
                } else {
                    assert(self@ =~~= stamped(g, p, n + 1));
                }
                col += 1;
            }
            row += 1;
        }
        assert(self@ =~~= locked(g, p));
    }

    /// Is every cell of row `r` settled?
    fn row_is_full(&self, r: usize) -> (b: bool)
        requires
            self.wf(),
            r < TETRIS_HEIGHT,
        ensures
            b == row_full(self@[r as int]),
    {
        let mut c: usize = 0;
        while c < TETRIS_WIDTH
            invariant
                self.wf(),
                r < TETRIS_HEIGHT,
                c <= TETRIS_WIDTH,
                forall|k: int| 0 <= k < c ==> #[trigger] self@[r as int][k].0,
            decreases TETRIS_WIDTH - c,
        {
            if !self.record[r * TETRIS_WIDTH + c] {
                assert(!self@[r as int][c as int].0);
                return false;
            }
            c += 1;
        }
        true
    }

    /// Row `to` takes the contents of row `from`.
    fn copy_row(&mut self, from: usize, to: usize)
        requires
            old(self).wf(),
            from < TETRIS_HEIGHT,
            to < TETRIS_HEIGHT,
        ensures
            final(self).wf(),
            final(self)@ == old(self)@.update(to as int, old(self)@[from as int]),
    {
        let ghost rec = self.record@;
        let ghost col = self.color_map@;
        let mut c: usize = 0;
        while c < TETRIS_WIDTH
            invariant
                self.wf(),
                from < TETRIS_HEIGHT,
                to < TETRIS_HEIGHT,
                c <= TETRIS_WIDTH,
                rec.len() == TETRIS_HEIGHT * TETRIS_WIDTH,
                col.len() == TETRIS_HEIGHT * TETRIS_WIDTH,
                forall|j: int|
                    0 <= j < TETRIS_HEIGHT * TETRIS_WIDTH && !(to * TETRIS_WIDTH <= j < to
                        * TETRIS_WIDTH + c) ==> self.record@[j] == rec[j] && self.color_map@[j]
                        == col[j],
                forall|j: int|
                    to * TETRIS_WIDTH <= j < to * TETRIS_WIDTH + c ==> #[trigger] self.record@[j]
                        == rec[j + from * TETRIS_WIDTH - to * TETRIS_WIDTH] && self.color_map@[j]
                        == col[j + from * TETRIS_WIDTH - to * TETRIS_WIDTH],
            decreases TETRIS_WIDTH - c,
        {
            let o = self.record[from * TETRIS_WIDTH + c];
            let k = self.color_map[from * TETRIS_WIDTH + c];
            self.record.set(to * TETRIS_WIDTH + c, o);
            self.color_map.set(to * TETRIS_WIDTH + c, k);
            c += 1;
        }
        assert(self@ =~~= old(self)@.update(to as int, old(self)@[from as int]));
    }

    /// Empties row `r`.
    fn clear_row(&mut self, r: usize)
        requires
            old(self).wf(),
            r < TETRIS_HEIGHT,
        ensures
            final(self).wf(),
            final(self)@ == old(self)@.update(r as int, empty_row()),
    {
        let ghost rec = self.record@;
        let ghost col = self.color_map@;
        let mut c: usize = 0;
        while c < TETRIS_WIDTH
            invariant
                self.wf(),
                r < TETRIS_HEIGHT,
                c <= TETRIS_WIDTH,
                rec.len() == TETRIS_HEIGHT * TETRIS_WIDTH,
                col.len() == TETRIS_HEIGHT * TETRIS_WIDTH,
                forall|j: int|
                    0 <= j < TETRIS_HEIGHT * TETRIS_WIDTH && !(r * TETRIS_WIDTH <= j < r
                        * TETRIS_WIDTH + c) ==> self.record@[j] == rec[j] && self.color_map@[j]
                        == col[j],
                forall|j: int|
                    r * TETRIS_WIDTH <= j < r * TETRIS_WIDTH + c ==> !#[trigger] self.record@[j]
                        && self.color_map@[j] == EMPTY_COLOR,
            decreases TETRIS_WIDTH - c,
        {
            self.record.set(r * TETRIS_WIDTH + c, false);
            self.color_map.set(r * TETRIS_WIDTH + c, EMPTY_COLOR);
            c += 1;
        }
        assert(self@ =~~= old(self)@.update(r as int, empty_row()));
    }

    /// Removes every full row: the other rows sink to the bottom in their order
    /// and empty rows fill the top. Returns how many rows were removed.
    pub fn finish_line(&mut self) -> (n: usize)
        requires
            old(self).wf(),
        ensures
            final(self).wf(),
            final(self)@ == cleared(old(self)@),
            n == TETRIS_HEIGHT - kept_rows(old(self)@).len(),
    {
        let ghost g = self@;
        let mut r: usize = TETRIS_HEIGHT;
        let mut w: usize = TETRIS_HEIGHT;
        assert(g.subrange(TETRIS_HEIGHT as int, TETRIS_HEIGHT as int).len() == 0);
        assert(self@.subrange(TETRIS_HEIGHT as int, TETRIS_HEIGHT as int) =~= kept_rows(
            g.subrange(TETRIS_HEIGHT as int, TETRIS_HEIGHT as int),
        ));
        while r > 0
            invariant
                self.wf(),
                r <= w <= TETRIS_HEIGHT,
                g.len() == TETRIS_HEIGHT,
                self@.subrange(w as int, TETRIS_HEIGHT as int) == kept_rows(
                    g.subrange(r as int, TETRIS_HEIGHT as int),
                ),
                forall|i: int| 0 <= i < r ==> #[trigger] self@[i] == g[i],
            decreases r,
        {
            r -= 1;
            let ghost before = self@;
            assert(g.subrange(r as int, TETRIS_HEIGHT as int).drop_first() =~= g.subrange(
                r as int + 1,
                TETRIS_HEIGHT as int,
            ));
            if !self.row_is_full(r) {
                w -= 1;
                self.copy_row(r, w);
                assert(self@.subrange(w as int, TETRIS_HEIGHT as int) =~= seq![g[r as int]]
                    + before.subrange(w + 1, TETRIS_HEIGHT as int));
            }
        }
        assert(g.subrange(0, TETRIS_HEIGHT as int) =~= g);
        let mut i: usize = 0;
        while i < w
            invariant
                self.wf(),
                i <= w <= TETRIS_HEIGHT,
                self@.subrange(w as int, TETRIS_HEIGHT as int) == kept_rows(g),
                forall|k: int| 0 <= k < i ==> #[trigger] self@[k] == empty_row(),
            decreases w - i,
        {
            let ghost before = self@;
            self.clear_row(i);
            assert(self@.subrange(w as int, TETRIS_HEIGHT as int) =~= before.subrange(
                w as int,
                TETRIS_HEIGHT as int,
            ));
            i += 1;
        }
        assert(self@ =~= cleared(g)) by {
            assert forall|k: int| w <= k < TETRIS_HEIGHT implies self@[k] == kept_rows(g)[k - w] by {
                assert(self@[k] == self@.subrange(w as int, TETRIS_HEIGHT as int)[k - w]);
            }
        }
        w
    }
}

} // verus!
