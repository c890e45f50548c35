use vstd::prelude::*;

use crate::matrix::{
    is_switch_cell, key_col, key_position, key_pressed, key_row, lemma_keys_cover_switch_cells,
    pressed_at, Matrix, COLS, KEY_COUNT, ROWS,
};
use crate::text::{decimal, hex_byte, join_texts, joined, push_decimal, push_hex_byte, text_of, texts};

verus! {

/// The number of pressed keys among the first `n` physical keys.
pub open spec fn pressed_key_count(m: Matrix, n: nat) -> nat
    decreases n,
{
    if n == 0 {
        0
    } else {
        pressed_key_count(m, (n - 1) as nat) + if key_pressed(m, n - 1) {
            1nat
        } else {
            0nat
        }
    }
}

/// The byte of row `row` built from its first `n` columns: bit `c` is set
/// when column `c` is pressed.
pub open spec fn row_bits(m: Matrix, row: int, n: nat) -> u8
    decreases n,
{
    if n == 0 {
        0
    } else {
        let before = row_bits(m, row, (n - 1) as nat);
        if pressed_at(m, row, n - 1) {
            before | (1u8 << ((n - 1) as u8))
        } else {
            before
        }
    }
}

/// The byte of row `row`.
pub open spec fn row_byte(m: Matrix, row: int) -> u8 {
    row_bits(m, row, COLS as nat)
}

/// The rows of `m` as two hexadecimal digits each.
pub open spec fn row_hex_texts(m: Matrix) -> Seq<Seq<char>> {
    Seq::new(ROWS as nat, |row: int| hex_byte(row_byte(m, row)))
}

/// The rows of `m` in hexadecimal, separated by colons.
pub open spec fn spec_matrix_rows_hex(m: Matrix) -> Seq<char> {
    joined(row_hex_texts(m), ":"@)
}

/// The name of physical key `i`: "r", its row, "c", its column.
pub open spec fn key_name(i: int) -> Seq<char> {
    "r"@ + decimal(key_row(i) as nat) + "c"@ + decimal(key_col(i) as nat)
}

/// The changes from `previous` to `current` among the first `n` physical
/// keys, in key order: "+" and the key name for a press, "-" and the key
/// name for a release.
pub open spec fn key_changes(previous: Matrix, current: Matrix, n: nat) -> Seq<Seq<char>>
    decreases n,
{
    if n == 0 {
        Seq::empty()
    } else {
        let before = key_changes(previous, current, (n - 1) as nat);
        let i = n - 1;
        if !key_pressed(previous, i) && key_pressed(current, i) {
            before.push("+"@ + key_name(i))
        } else if key_pressed(previous, i) && !key_pressed(current, i) {
            before.push("-"@ + key_name(i))
        } else {
            before
        }
    }
}

/// The list of changes as one text, or "none".
pub open spec fn spec_change_text(changes: Seq<Seq<char>>) -> Seq<char> {
    if changes.len() == 0 {
        "none"@
    } else {
        joined(changes, ","@)
    }
}

/// The number of pressed keys.
pub fn pressed_count(matrix: &Matrix) -> (r: usize)
    ensures
        r == pressed_key_count(*matrix, KEY_COUNT as nat),
{
    let mut count: usize = 0;
    let mut index: usize = 0;
    while index < KEY_COUNT
        invariant
            index <= KEY_COUNT,
            count == pressed_key_count(*matrix, index as nat),
            count <= index,
        decreases KEY_COUNT - index,
    {
        let (row, col) = key_position(index);
        if matrix[row][col] {
            count = count + 1;
        }
        index = index + 1;
    }
    count
}

/// The byte of row `row` of `matrix`.
fn matrix_row_byte(matrix: &Matrix, row: usize) -> (r: u8)
    requires
        row < ROWS,
    ensures
        r == row_byte(*matrix, row as int),
{
    let mut bits: u8 = 0;
    let mut col: usize = 0;
    while col < COLS
        invariant
            row < ROWS,
            col <= COLS,
            bits == row_bits(*matrix, row as int, col as nat),
        decreases COLS - col,
    {
        if matrix[row][col] {
            bits = bits | (1u8 << (col as u8));
        }
        col = col + 1;
    }
    bits
}

/// The rows of `matrix` as two lowercase hexadecimal digits each, separated
/// by colons.
pub fn matrix_rows_hex(matrix: &Matrix) -> (r: String)
    ensures
        r@ == spec_matrix_rows_hex(*matrix),
{
    let ghost all = row_hex_texts(*matrix);
    let mut out = String::new();
    let mut row: usize = 0;
    while row < ROWS
        invariant
            row <= ROWS,
            all == row_hex_texts(*matrix),
            out@ == joined(all.take(row as int), ":"@),
        decreases ROWS - row,
    {
        assert(all.take(row + 1).drop_last() =~= all.take(row as int));
        if row != 0 {
            out.append(":");
        }
        push_hex_byte(&mut out, matrix_row_byte(matrix, row));
        if row == 0 {
            assert(out@ =~= joined(all.take(1), ":"@));
        }
        row = row + 1;
    }
    assert(all.take(ROWS as int) =~= all);
    out
}

/// The name of the key at `row`, `col`: "r", the row, "c", the column.
fn position_name(prefix: &str, row: usize, col: usize) -> (r: String)
    ensures
        r@ == prefix@ + "r"@ + decimal(row as nat) + "c"@ + decimal(col as nat),
{
    let mut out = text_of(prefix);
    out.append("r");
    push_decimal(&mut out, row as u64);
    out.append("c");
    push_decimal(&mut out, col as u64);
    out
}

/// The key presses ("+") and releases ("-") from `previous` to `current`,
/// in key order.
pub fn matrix_changes(previous: &Matrix, current: &Matrix) -> (r: Vec<String>)
    ensures
        texts(r@) == key_changes(*previous, *current, KEY_COUNT as nat),
{
    let mut changes: Vec<String> = Vec::new();
    let mut index: usize = 0;
    while index < KEY_COUNT
        invariant
            index <= KEY_COUNT,
            texts(changes@) == key_changes(*previous, *current, index as nat),
        decreases KEY_COUNT - index,
    {
        let (row, col) = key_position(index);
        let ghost before = changes@;
        if !previous[row][col] && current[row][col] {
            let name = position_name("+", row, col);
            assert(name@ =~= "+"@ + key_name(index as int));
            changes.push(name);
            assert(texts(changes@) =~= texts(before).push(name@));
        } else if previous[row][col] && !current[row][col] {
            let name = position_name("-", row, col);
            assert(name@ =~= "-"@ + key_name(index as int));
            changes.push(name);
            assert(texts(changes@) =~= texts(before).push(name@));
        }
        index = index + 1;
    }
    changes
}

/// The changes as one comma-separated text, or "none" when there are none.
pub fn matrix_change_text(changes: &[String]) -> (r: String)
    ensures
        r@ == spec_change_text(texts(changes@)),
{
    if changes.len() == 0 {
        text_of("none")
    } else {
        join_texts(changes, ",")
    }
}

/// Bit `c` of a row's byte is the pressed state of column `c`, and the
/// unused top bit is clear: the byte encodes the row exactly as the
/// firmware's row bytes do.
pub proof fn lemma_row_byte_bits(m: Matrix, row: int, col: int)
    requires
        0 <= col < 8,
    ensures
        ((row_byte(m, row) >> (col as u8)) & 1u8 == 1u8) == (col < COLS && pressed_at(
            m,
            row,
            col,
        )),
{
    lemma_row_bits_prefix(m, row, COLS as nat, col);
}

proof fn lemma_row_bits_prefix(m: Matrix, row: int, n: nat, col: int)
    requires
        0 <= col < 8,
        n <= 7,
    ensures
        ((row_bits(m, row, n) >> (col as u8)) & 1u8 == 1u8) == (col < n && pressed_at(m, row, col)),
    decreases n,
{
    let c = col as u8;
    if n == 0 {
        assert((0u8 >> c) & 1u8 != 1u8) by (bit_vector);
    } else {
        lemma_row_bits_prefix(m, row, (n - 1) as nat, col);
        let before = row_bits(m, row, (n - 1) as nat);
        let k = (n - 1) as u8;
        assert(((before | (1u8 << k)) >> c) & 1u8 == 1u8 <==> ((before >> c) & 1u8 == 1u8 || c
            == k)) by (bit_vector)
            requires
                c < 8,
                k < 7,
        ;
    }
}

/// There are no changes between two matrices exactly when every physical
/// key has the same state in both; in particular a matrix has no changes
/// from itself.
pub proof fn lemma_no_changes_iff_same_keys(previous: Matrix, current: Matrix, n: nat)
    ensures
        key_changes(previous, current, n).len() == 0 <==> forall|i: int|
            0 <= i < n ==> key_pressed(previous, i) == key_pressed(current, i),
    decreases n,
{
    if n > 0 {
        lemma_no_changes_iff_same_keys(previous, current, (n - 1) as nat);
    }
}

proof fn lemma_count_zero_iff_none_pressed(m: Matrix, n: nat)
    ensures
        pressed_key_count(m, n) <= n,
        pressed_key_count(m, n) == 0 <==> forall|i: int| 0 <= i < n ==> !#[trigger] key_pressed(m, i),
    decreases n,
{
    if n > 0 {
        lemma_count_zero_iff_none_pressed(m, (n - 1) as nat);
    }
}

/// The pressed-key count sees every switch of the board and nothing else:
/// it is zero exactly when no switch cell is pressed, whatever the cells
/// outside the board hold, and it is at most the number of keys.
pub proof fn lemma_pressed_count_sees_every_switch(m: Matrix)
    ensures
        pressed_key_count(m, KEY_COUNT as nat) <= KEY_COUNT,
        pressed_key_count(m, KEY_COUNT as nat) == 0 <==> forall|row: int, col: int|
            #[trigger] is_switch_cell(row, col) ==> !pressed_at(m, row, col),
{
    lemma_count_zero_iff_none_pressed(m, KEY_COUNT as nat);
    lemma_keys_cover_switch_cells();
    if pressed_key_count(m, KEY_COUNT as nat) == 0 {
        assert forall|row: int, col: int| #[trigger] is_switch_cell(row, col) implies !pressed_at(
            m,
            row,
            col,
        ) by {
            let i = choose|i: int| 0 <= i < KEY_COUNT && key_row(i) == row && key_col(i) == col;
            assert(!key_pressed(m, i));
        }
    }
    if forall|row: int, col: int| #[trigger] is_switch_cell(row, col) ==> !pressed_at(m, row, col) {
        assert forall|i: int| 0 <= i < KEY_COUNT implies !#[trigger] key_pressed(m, i) by {
            assert(is_switch_cell(key_row(i), key_col(i)));
        }
    }
}

} // verus!
