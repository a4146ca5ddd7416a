use vstd::prelude::*;

use crate::setting::{
    mask_cell, shape_mask, PIECE_COLORS, PIECE_KINDS, SPAWN_X, TETRIS_HEIGHT,
    TETRIS_WIDTH,
};

verus! {

/// Which mask cell is shown at local cell `(row, col)` after turning the shape
/// clockwise by `turn` quarter turns; the result is `(source row, source column)`.
pub open spec fn rotate_source(turn: int, row: int, col: int) -> (int, int) {
    if turn == 1 {
        (3 - col, row)
    } else if turn == 2 {
        (3 - row, 3 - col)
    } else if turn == 3 {
        (col, 3 - row)
    } else {
        (row, col)
    }
}

/// Is local cell `(row, col)` of shape `t`, turned by `turn`, filled?
pub open spec fn occupies(t: int, turn: int, row: int, col: int) -> bool {
    &&& 0 <= row < 4
    &&& 0 <= col < 4
    &&& shape_mask(t, rotate_source(turn, row, col).0, rotate_source(turn, row, col).1)
}

/// One clockwise quarter turn, as a map from a shown cell to the mask cell it shows.
pub open spec fn quarter_turn(rc: (int, int)) -> (int, int) {
    rotate_source(1, rc.0, rc.1)
}

/// Turning by `turn` quarters is `turn` successive quarter turns, and four
/// quarter turns bring every cell back to itself.
pub proof fn lemma_four_quarter_turns(row: int, col: int)
    ensures
        rotate_source(0, row, col) == (row, col),
        rotate_source(2, row, col) == quarter_turn(quarter_turn((row, col))),
        rotate_source(3, row, col) == quarter_turn(quarter_turn(quarter_turn((row, col)))),
        quarter_turn(quarter_turn(quarter_turn(quarter_turn((row, col))))) == (row, col),
{
}

/// Is `(r, c)` a cell of the board?
pub open spec fn on_board(r: int, c: int) -> bool {
    0 <= r < TETRIS_HEIGHT && 0 <= c < TETRIS_WIDTH
}

/// The falling piece: a shape, its rotation, the board position of the top-left
/// corner of its 4x4 box, and its palette slot.
#[derive(Clone, Copy, Debug)]
pub struct Piece {
    pub piece_type: usize,
    pub turn: i32,
    pub x: i32,
    pub y: i32,
    pub color: usize,
}

impl Piece {
    /// A known shape and a rotation in `0..4`.
    pub open spec fn wf(self) -> bool {
        self.piece_type < PIECE_KINDS && 0 <= self.turn < 4
    }

    /// A piece as it enters the board: unrotated, at the spawn column, on row 0.
    pub open spec fn is_spawn(self) -> bool {
        &&& self.piece_type < PIECE_KINDS
        &&& self.turn == 0
        &&& self.x == SPAWN_X
        &&& self.y == 0
    }

    /// Is local cell `(row, col)` of this piece filled?
    pub open spec fn cell(self, row: int, col: int) -> bool {
        occupies(self.piece_type as int, self.turn as int, row, col)
    }

    /// Does this piece cover board cell `(r, c)`?
    pub open spec fn covers(self, r: int, c: int) -> bool {
        self.cell(r - self.y, c - self.x)
    }

    /// Do all filled cells lie on the board once shifted by `(dx, dy)`?
    pub open spec fn self_fits(self, dx: int, dy: int) -> bool {
        forall|row: int, col: int|
            #[trigger] self.cell(row, col) ==> on_board(self.y + row + dy, self.x + col + dx)
    }

    /// The piece shifted by `(dx, dy)`.
    pub open spec fn shifted(self, dx: int, dy: int) -> Piece {
        Piece { x: (self.x + dx) as i32, y: (self.y + dy) as i32, ..self }
    }

    /// The piece turned one more quarter clockwise, in place.
    pub open spec fn turned(self) -> Piece {
        Piece { turn: ((self.turn + 1) % 4) as i32, ..self }
    }

    /// A local cell that every shape fills, whatever its rotation.
    pub open spec fn anchor(self) -> (int, int) {
        let s: (int, int) = if self.piece_type == 0 { (1, 2) } else { (2, 2) };
        if self.turn == 1 {
            (s.1, 3 - s.0)
        } else if self.turn == 2 {
            (3 - s.0, 3 - s.1)
        } else if self.turn == 3 {
            (3 - s.1, s.0)
        } else {
            s
        }
    }

    /// Every well-formed piece fills at least one cell.
    pub proof fn lemma_anchor_filled(self)
        requires
            self.wf(),
        ensures
            self.cell(self.anchor().0, self.anchor().1),
    {
    }

    /// A piece that fits the board once shifted has its box close to the board.
    pub proof fn lemma_fit_bounds(self, dx: int, dy: int)
        requires
            self.wf(),
            self.self_fits(dx, dy),
        ensures
            -3 <= self.x + dx < TETRIS_WIDTH,
            -3 <= self.y + dy < TETRIS_HEIGHT,
    {
        self.lemma_anchor_filled();
        let a = self.anchor();
        assert(self.cell(a.0, a.1));
    }

    /// Turning a piece four times gives back the same piece, so every cell it fills.
    pub proof fn lemma_turn_four_times(self)
        requires
            self.wf(),
        ensures
            self.turned().turned().turned().turned() == self,
            forall|row: int, col: int|
                #[trigger] self.turned().turned().turned().turned().cell(row, col) == self.cell(
                    row,
                    col,
                ),
    {
    }

    /// Every spawned piece lies on the board.
    pub proof fn lemma_spawn_fits(self)
        requires
            self.is_spawn(),
        ensures
            self.self_fits(0, 0),
    {
    }

    /// A piece at the spawn position with shape `piece_type` and palette slot `color`.
    pub fn spawn(piece_type: usize, color: usize) -> (p: Piece)
        requires
            piece_type < PIECE_KINDS,
        ensures
            p.is_spawn(),
            p.piece_type == piece_type,
            p.color == color,
    {
        Piece { piece_type, turn: 0, x: SPAWN_X, y: 0, color }
    }

    /// A piece of shape `piece_type`, turned by `turn`, with its box at `(x, y)`.
    pub fn new(piece_type: usize, turn: i32, x: i32, y: i32, color: usize) -> (p: Piece)
        requires
            piece_type < PIECE_KINDS,
            0 <= turn < 4,
        ensures
            p.wf(),
            p == (Piece { piece_type, turn, x, y, color }),
    {
        Piece { piece_type, turn, x, y, color }
    }

    /// A spawned piece of a shape and a palette slot drawn at random.
    pub fn random_piece() -> (p: Piece)
        ensures
            p.is_spawn(),
            p.color < PIECE_COLORS,
    {
        let piece_type = random_below(PIECE_KINDS);
        let color = random_below(PIECE_COLORS);
        Piece::spawn(piece_type, color)
    }

    /// The mask cell shown at local `(col, row)`, as `(source column, source row)`.
    pub fn rotate_index(self, col: usize, row: usize) -> (r: (usize, usize))
        requires
            self.wf(),
            col < 4,
            row < 4,
        ensures
            r.0 as int == rotate_source(self.turn as int, row as int, col as int).1,
            r.1 as int == rotate_source(self.turn as int, row as int, col as int).0,
            r.0 < 4,
            r.1 < 4,
    {
        match self.turn {
            0 => (col, row),
            1 => (row, 3 - col),
            2 => (3 - col, 3 - row),
            _ => (3 - row, col),
        }
    }

    /// Is local cell `(row, col)` of this piece filled?
    pub fn occupies_at(&self, row: usize, col: usize) -> (b: bool)
        requires
            self.wf(),
            row < 4,
            col < 4,
        ensures
            b == self.cell(row as int, col as int),
    {
        let (rcol, rrow) = self.rotate_index(col, row);
        mask_cell(self.piece_type, rrow, rcol)
    }

    /// The board cells the piece covers, as `(row, column)`, in row-major order.
    pub fn cells(&self) -> (v: Vec<(usize, usize)>)
        requires
            self.wf(),
            self.self_fits(0, 0),
        ensures
            forall|k: int| 0 <= k < v.len() ==> self.covers(#[trigger] v[k].0 as int, v[k].1 as int),
            forall|r: int, c: int| #[trigger]
                self.covers(r, c) ==> exists|k: int|
                    0 <= k < v.len() && #[trigger] v[k] == (r as usize, c as usize),
            forall|j: int, k: int|
                0 <= j < k < v.len() ==> v[j].0 < v[k].0 || (v[j].0 == v[k].0 && v[j].1 < v[k].1),
    {
        let mut v: Vec<(usize, usize)> = Vec::new();
        let mut row: usize = 0;
        while row < 4
            invariant
                self.wf(),
                self.self_fits(0, 0),
                row <= 4,
                forall|k: int|
                    0 <= k < v.len() ==> self.covers(#[trigger] v[k].0 as int, v[k].1 as int) && v[k].0
                        < self.y + row,
                forall|r: int, c: int| #[trigger]
                    self.covers(r, c) && r < self.y + row ==> exists|k: int|
                        0 <= k < v.len() && #[trigger] v[k] == (r as usize, c as usize),
                forall|j: int, k: int|
                    0 <= j < k < v.len() ==> v[j].0 < v[k].0 || (v[j].0 == v[k].0 && v[j].1
                        < v[k].1),
            decreases 4 - row,
        {
            let mut col: usize = 0;
            while col < 4
                invariant
                    self.wf(),
                    self.self_fits(0, 0),
                    row < 4,
                    col <= 4,
                    forall|k: int|
                        0 <= k < v.len() ==> self.covers(#[trigger] v[k].0 as int, v[k].1 as int)
                            && (v[k].0 < self.y + row || (v[k].0 == self.y + row && v[k].1
                            < self.x + col)),
                    forall|r: int, c: int| #[trigger]
                        self.covers(r, c) && (r < self.y + row || (r == self.y + row && c
                            < self.x + col)) ==> exists|k: int|
                            0 <= k < v.len() && #[trigger] v[k] == (r as usize, c as usize),
                    forall|j: int, k: int|
                        0 <= j < k < v.len() ==> v[j].0 < v[k].0 || (v[j].0 == v[k].0 && v[j].1
                            < v[k].1),
                decreases 4 - col,
            {
                if self.occupies_at(row, col) {
                    assert(self.cell(row as int, col as int));
                    let r = (self.y as i64 + row as i64) as usize;
                    let c = (self.x as i64 + col as i64) as usize;
                    let ghost before = v@;
                    v.push((r, c));
                    assert forall|rr: int, cc: int| #[trigger]
                        self.covers(rr, cc) && (rr < self.y + row || (rr == self.y + row && cc
                            < self.x + col + 1)) implies exists|k: int|
                            0 <= k < v.len() && #[trigger] v[k] == (rr as usize, cc as usize) by {
                        if rr == self.y + row && cc == self.x + col {
                            assert(v[before.len() as int] == (rr as usize, cc as usize));
                        } else {
                            let k = choose|k: int|
                                0 <= k < before.len() && #[trigger] before[k] == (
                                    rr as usize,
                                    cc as usize,
                                );
                            assert(v[k] == before[k]);
                        }
                    }
                }
                col += 1;
            }
            row += 1;
        }
        v
    }

    /// Does every filled cell lie on the board once shifted by `(dx, dy)`?
    pub fn piece_fit(&self, dx: i32, dy: i32) -> (b: bool)
        requires
            self.wf(),
        ensures
            b == self.self_fits(dx as int, dy as int),
    {
        let mut row: usize = 0;
        while row < 4
            invariant
                self.wf(),
                row <= 4,
                forall|r: int, c: int|
                    0 <= r < row && #[trigger] self.cell(r, c) ==> on_board(
                        self.y + r + dy,
                        self.x + c + dx,
                    ),
            decreases 4 - row,
        {
            let mut col: usize = 0;
            while col < 4
                invariant
                    self.wf(),
                    row < 4,
                    col <= 4,
                    forall|r: int, c: int|
                        (0 <= r < row || (r == row && c < col)) && #[trigger] self.cell(r, c)
                            ==> on_board(self.y + r + dy, self.x + c + dx),
                decreases 4 - col,
            {
                let r = self.y as i64 + row as i64 + dy as i64;
                let c = self.x as i64 + col as i64 + dx as i64;
                if self.occupies_at(row, col) && (r < 0 || r >= TETRIS_HEIGHT as i64 || c < 0
                    || c >= TETRIS_WIDTH as i64) {
                    return false;
                }
                col += 1;
            }
            row += 1;
        }
        true
    }

    /// Shifts the piece by `(dx, dy)` without any check.
    pub fn move_piece(&mut self, dx: i32, dy: i32)
        requires
            i32::MIN <= old(self).x + dx <= i32::MAX,
            i32::MIN <= old(self).y + dy <= i32::MAX,
        ensures
            *final(self) == old(self).shifted(dx as int, dy as int),
    {
        self.x = self.x + dx;
        self.y = self.y + dy;
    }
}

/// Relies on rand::thread_rng and rand::Rng::gen_range: a value of `0..n`,
/// which rand draws uniformly and refuses (panics) only for an empty range.
#[verifier::external_body]
fn random_below(n: usize) -> (r: usize)
    requires
        n > 0,
    ensures
        r < n,
{
    rand::Rng::gen_range(&mut rand::thread_rng(), 0..n)
}

} // verus!
