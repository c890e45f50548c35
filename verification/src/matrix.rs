use vstd::prelude::*;

verus! {

/// Number of rows in the switch matrix.
pub const ROWS: usize = 10;

/// Number of columns in the switch matrix.
pub const COLS: usize = 7;

/// Number of dynamic keymap layers the viewer keeps.
pub const MAX_LAYERS: usize = 10;

/// Number of physical keys on the board.
pub const KEY_COUNT: usize = 65;

/// Pressed state of every switch, indexed by row, then column.
pub type Matrix = [[bool; 7]; 10];

/// The dynamic keymap: one keycode per layer, row and column.
pub type Keycodes = [[[u16; 7]; 10]; 10];

/// Whether the switch at `row`, `col` is pressed in `m`.
pub open spec fn pressed_at(m: Matrix, row: int, col: int) -> bool {
    m@[row]@[col]
}

/// The keycode stored at `layer`, `row`, `col`.
pub open spec fn keycode_at(k: Keycodes, layer: int, row: int, col: int) -> u16 {
    k@[layer]@[row]@[col]
}

/// Matrix position (row, column) of physical key `i`, for the keys in the
/// order the board is laid out: left and right halves row by row, then the
/// thumb cluster, then the five-way switch.
pub open spec fn key_layout(i: usize) -> (usize, usize) {
    match i {
        0 => (0, 0),
        1 => (0, 1),
        2 => (0, 2),
        3 => (0, 3),
        4 => (0, 4),
        5 => (0, 5),
        6 => (5, 5),
        7 => (5, 4),
        8 => (5, 3),
        9 => (5, 2),
        10 => (5, 1),
        11 => (5, 0),
        12 => (1, 0),
        13 => (1, 1),
        14 => (1, 2),
        15 => (1, 3),
        16 => (1, 4),
        17 => (1, 5),
        18 => (6, 5),
        19 => (6, 4),
        20 => (6, 3),
        21 => (6, 2),
        22 => (6, 1),
        23 => (6, 0),
        24 => (2, 0),
        25 => (2, 1),
        26 => (2, 2),
        27 => (2, 3),
        28 => (2, 4),
        29 => (2, 5),
        30 => (7, 5),
        31 => (7, 4),
        32 => (7, 3),
        33 => (7, 2),
        34 => (7, 1),
        35 => (7, 0),
        36 => (3, 0),
        37 => (3, 1),
        38 => (3, 2),
        39 => (3, 3),
        40 => (3, 4),
        41 => (3, 5),
        42 => (4, 5),
        43 => (9, 5),
        44 => (8, 5),
        45 => (8, 4),
        46 => (8, 3),
        47 => (8, 2),
        48 => (8, 1),
        49 => (8, 0),
        50 => (4, 0),
        51 => (4, 1),
        52 => (4, 2),
        53 => (4, 3),
        54 => (4, 4),
        55 => (9, 4),
        56 => (9, 3),
        57 => (9, 2),
        58 => (9, 1),
        59 => (9, 0),
        60 => (0, 6),
        61 => (1, 6),
        62 => (2, 6),
        63 => (3, 6),
        64 => (4, 6),
        _ => (0, 0),
    }
}

/// Row of physical key `i`.
pub open spec fn key_row(i: int) -> int {
    key_layout(i as usize).0 as int
}

/// Column of physical key `i`.
pub open spec fn key_col(i: int) -> int {
    key_layout(i as usize).1 as int
}

/// Whether physical key `i` is pressed in `m`.
pub open spec fn key_pressed(m: Matrix, i: int) -> bool {
    pressed_at(m, key_row(i), key_col(i))
}

/// Every physical key sits inside the matrix.
pub proof fn lemma_key_in_bounds(i: int)
    ensures
        key_row(i) < ROWS,
        key_col(i) < COLS,
{
}

/// Whether `row`, `col` is the position of a switch of the board: the six
/// columns of every row of both halves, and the five cells of column 6 that
/// hold the five-way switch.
pub open spec fn is_switch_cell(row: int, col: int) -> bool {
    (0 <= row < ROWS && 0 <= col < 6) || (0 <= row < 5 && col == 6)
}

/// The physical key index of the switch at `row`, `col`.
spec fn switch_index(row: int, col: int) -> int {
    if col == 6 {
        60 + row
    } else if row < 4 {
        12 * row + col
    } else if row == 4 {
        if col == 5 {
            42
        } else {
            50 + col
        }
    } else if row < 8 {
        12 * (row - 5) + 11 - col
    } else if row == 8 {
        49 - col
    } else if col == 5 {
        43
    } else {
        59 - col
    }
}

/// The physical keys cover the board's switches one for one: every switch
/// cell is the position of exactly one physical key, and every physical key
/// sits on a switch cell.
pub proof fn lemma_keys_cover_switch_cells()
    ensures
        forall|row: int, col: int| #[trigger] is_switch_cell(row, col) ==> exists|i: int|
            0 <= i < KEY_COUNT && key_row(i) == row && key_col(i) == col,
        forall|i: int| 0 <= i < KEY_COUNT ==> is_switch_cell(#[trigger] key_row(i), key_col(i)),
        forall|i: int, j: int|
            0 <= i < KEY_COUNT && 0 <= j < KEY_COUNT && i != j ==> (#[trigger] key_row(i), key_col(i))
                != (#[trigger] key_row(j), key_col(j)),
{
    assert forall|row: int, col: int| #[trigger] is_switch_cell(row, col) implies exists|i: int|
        0 <= i < KEY_COUNT && key_row(i) == row && key_col(i) == col by {
        let i = switch_index(row, col);
        assert(0 <= i < KEY_COUNT && key_row(i) == row && key_col(i) == col);
    }
    assert forall|i: int| 0 <= i < KEY_COUNT implies switch_index(#[trigger] key_row(i), key_col(i))
        == i && is_switch_cell(key_row(i), key_col(i)) by {}
}

/// The matrix position of physical key `index`.
pub fn key_position(index: usize) -> (pos: (usize, usize))
    requires
        index < KEY_COUNT,
    ensures
        pos == key_layout(index),
        pos.0 < ROWS,
        pos.1 < COLS,
{
    match index {
        0 => (0, 0),
        1 => (0, 1),
        2 => (0, 2),
        3 => (0, 3),
        4 => (0, 4),
        5 => (0, 5),
        6 => (5, 5),
        7 => (5, 4),
        8 => (5, 3),
        9 => (5, 2),
        10 => (5, 1),
        11 => (5, 0),
        12 => (1, 0),
        13 => (1, 1),
        14 => (1, 2),
        15 => (1, 3),
        16 => (1, 4),
        17 => (1, 5),
        18 => (6, 5),
        19 => (6, 4),
        20 => (6, 3),
        21 => (6, 2),
        22 => (6, 1),
        23 => (6, 0),
        24 => (2, 0),
        25 => (2, 1),
        26 => (2, 2),
        27 => (2, 3),
        28 => (2, 4),
        29 => (2, 5),
        30 => (7, 5),
        31 => (7, 4),
        32 => (7, 3),
        33 => (7, 2),
        34 => (7, 1),
        35 => (7, 0),
        36 => (3, 0),
        37 => (3, 1),
        38 => (3, 2),
        39 => (3, 3),
        40 => (3, 4),
        41 => (3, 5),
        42 => (4, 5),
        43 => (9, 5),
        44 => (8, 5),
        45 => (8, 4),
        46 => (8, 3),
        47 => (8, 2),
        48 => (8, 1),
        49 => (8, 0),
        50 => (4, 0),
        51 => (4, 1),
        52 => (4, 2),
        53 => (4, 3),
        54 => (4, 4),
        55 => (9, 4),
        56 => (9, 3),
        57 => (9, 2),
        58 => (9, 1),
        59 => (9, 0),
        60 => (0, 6),
        61 => (1, 6),
        62 => (2, 6),
        63 => (3, 6),
        64 => (4, 6),
        _ => (0, 0),
    }
}

/// No switch of `m` is pressed.
pub open spec fn is_empty_matrix(m: Matrix) -> bool {
    forall|row: int, col: int| 0 <= row < ROWS && 0 <= col < COLS ==> !#[trigger] pressed_at(m, row, col)
}

/// A matrix with no switch pressed.
pub fn empty_matrix() -> (m: Matrix)
    ensures
        is_empty_matrix(m),
{
    [[false; 7]; 10]
}

} // verus!
