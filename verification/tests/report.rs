use sofle_plus2_viewer::matrix::{empty_matrix, key_position, KEY_COUNT};
use sofle_plus2_viewer::report::{matrix_change_text, matrix_changes, matrix_rows_hex, pressed_count};

#[test]
fn key_layout_is_inside_the_matrix_and_distinct() {
    let mut seen = [[false; 7]; 10];
    for index in 0..KEY_COUNT {
        let (row, col) = key_position(index);
        assert!(row < 10 && col < 7);
        assert!(!seen[row][col]);
        seen[row][col] = true;
    }
    assert_eq!(key_position(0), (0, 0));
    assert_eq!(key_position(6), (5, 5));
    assert_eq!(key_position(64), (4, 6));
}

#[test]
fn counts_and_hex_rows() {
    let mut matrix = empty_matrix();
    assert_eq!(pressed_count(&matrix), 0);
    assert_eq!(matrix_rows_hex(&matrix), "00:00:00:00:00:00:00:00:00:00");
    matrix[0][0] = true;
    matrix[5][5] = true;
    matrix[4][6] = true;
    matrix[9][6] = true; // no key sits there
    assert_eq!(pressed_count(&matrix), 3);
    assert_eq!(matrix_rows_hex(&matrix), "01:00:00:00:40:20:00:00:00:40");
}

#[test]
fn changes_in_key_order() {
    let mut previous = empty_matrix();
    previous[5][5] = true;
    let mut current = empty_matrix();
    current[0][0] = true;
    current[4][6] = true;
    let changes = matrix_changes(&previous, &current);
    assert_eq!(changes, vec!["+r0c0", "-r5c5", "+r4c6"]);
    assert_eq!(matrix_change_text(&changes), "+r0c0,-r5c5,+r4c6");
    assert!(matrix_changes(&current, &current).is_empty());
    assert_eq!(matrix_change_text(&[]), "none");
}
