use vstd::prelude::*;

verus! {

/// Number of columns of the board.
pub const TETRIS_WIDTH: usize = 10;

/// Number of rows of the board; row 0 is the top.
pub const TETRIS_HEIGHT: usize = 20;

/// Number of piece shapes.
pub const PIECE_KINDS: usize = 7;

/// Number of palette slots a piece may be painted with.
pub const PIECE_COLORS: usize = 9;

/// Palette slot of an empty board cell.
pub const EMPTY_COLOR: usize = 9;

/// Column of the bounding box of a freshly spawned piece.
pub const SPAWN_X: i32 = 3;

/// The unrotated 4x4 mask of each shape: is local cell `(r, c)` part of shape `t`?
pub open spec fn shape_mask(t: int, r: int, c: int) -> bool {
    0 <= c < 4 && if t == 0 {
        r == 1
    } else if t == 1 {
        (r == 1 && c == 2) || (r == 2 && 1 <= c)
    } else if t == 2 {
        (r == 1 && c == 0) || (r == 2 && c <= 2)
    } else if t == 3 {
        (r == 1 && c == 2) || (r == 2 && c <= 2)
    } else if t == 4 {
        (r == 1 || r == 2) && (c == 1 || c == 2)
    } else if t == 5 {
        (r == 1 && c >= 2) || (r == 2 && (c == 1 || c == 2))
    } else if t == 6 {
        (r == 1 && (c == 1 || c == 2)) || (r == 2 && c >= 2)
    } else {
        false
    }
}

/// Looks up cell `(r, c)` of the mask of shape `t`.
pub fn mask_cell(t: usize, r: usize, c: usize) -> (b: bool)
    requires
        t < PIECE_KINDS,
        r < 4,
        c < 4,
    ensures
        b == shape_mask(t as int, r as int, c as int),
{
    match t {
        0 => r == 1,
        1 => (r == 1 && c == 2) || (r == 2 && 1 <= c),
        2 => (r == 1 && c == 0) || (r == 2 && c <= 2),
        3 => (r == 1 && c == 2) || (r == 2 && c <= 2),
        4 => (r == 1 || r == 2) && (c == 1 || c == 2),
        5 => (r == 1 && c >= 2) || (r == 2 && (c == 1 || c == 2)),
        _ => (r == 1 && (c == 1 || c == 2)) || (r == 2 && c >= 2),
    }
}

} // verus!
