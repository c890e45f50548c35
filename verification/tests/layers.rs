use sofle_plus2_viewer::keycode::KC_NO;
use sofle_plus2_viewer::layer::{
    active_mask_from_pressed, clamp_layer_count, highest_layer, infer_active_layer,
    normalize_layer_mask, valid_layer_mask, FallbackLayerTracker,
};
use sofle_plus2_viewer::matrix::{empty_matrix, key_position, Keycodes, Matrix};

fn blank() -> Keycodes {
    [[[KC_NO; 7]; 10]; 10]
}

fn press(matrix: &mut Matrix, row: usize, col: usize) {
    matrix[row][col] = true;
}

#[test]
fn valid_masks() {
    assert_eq!(valid_layer_mask(0), 0b1);
    assert_eq!(valid_layer_mask(1), 0b1);
    assert_eq!(valid_layer_mask(4), 0b1111);
    assert_eq!(valid_layer_mask(10), 0x3ff);
    assert_eq!(valid_layer_mask(99), 0x3ff);
    assert_eq!(clamp_layer_count(0), 1);
    assert_eq!(clamp_layer_count(7), 7);
    assert_eq!(clamp_layer_count(11), 10);
}

#[test]
fn normalized_masks() {
    assert_eq!(normalize_layer_mask(0b1010, 4), 0b1010);
    assert_eq!(normalize_layer_mask(0b1_0000, 4), 1);
    assert_eq!(normalize_layer_mask(0, 4), 1);
    assert_eq!(normalize_layer_mask(0xffff, 3), 0b111);
    for mask in [0u16, 1, 0b1010, 0x8001, 0xffff] {
        for count in [0usize, 1, 3, 10, 20] {
            let once = normalize_layer_mask(mask, count);
            assert_eq!(normalize_layer_mask(once, count), once);
            assert_ne!(once, 0);
        }
    }
}

#[test]
fn highest_layers() {
    assert_eq!(highest_layer(0), 0);
    assert_eq!(highest_layer(1), 0);
    assert_eq!(highest_layer(0b1010), 3);
    assert_eq!(highest_layer(0x0400), 0); // layer 10 is past the last layer
    assert_eq!(highest_layer(0x0601), 9);
}

#[test]
fn held_layer_keys_chain() {
    let mut keycodes = blank();
    let (r0, c0) = key_position(0);
    let (r1, c1) = key_position(1);
    keycodes[0][r0][c0] = 0x5221; // MO(1) on layer 0
    keycodes[1][r1][c1] = 0x5222; // MO(2) on layer 1
    keycodes[0][r1][c1] = 0x0004; // A on layer 0
    let mut matrix = empty_matrix();
    press(&mut matrix, r0, c0);
    assert_eq!(active_mask_from_pressed(&matrix, &keycodes, 4, 1), 0b011);
    press(&mut matrix, r1, c1);
    assert_eq!(active_mask_from_pressed(&matrix, &keycodes, 4, 1), 0b111);
    assert_eq!(infer_active_layer(&matrix, &keycodes, 4), 2);
    // Layer 2 is past a layer count of 2.
    assert_eq!(active_mask_from_pressed(&matrix, &keycodes, 2, 1), 0b011);
    assert_eq!(infer_active_layer(&matrix, &keycodes, 2), 1);
}

#[test]
fn active_mask_is_closed() {
    let mut keycodes = blank();
    let mut matrix = empty_matrix();
    for index in 0..9 {
        let (row, col) = key_position(index);
        press(&mut matrix, row, col);
        keycodes[index][row][col] = 0x5221 + index as u16; // MO(index + 1) on layer `index`
    }
    let mask = active_mask_from_pressed(&matrix, &keycodes, 10, 1);
    assert_eq!(mask, 0x3ff);
    assert_eq!(active_mask_from_pressed(&matrix, &keycodes, 10, mask), mask);
}

#[test]
fn nothing_pressed_keeps_the_initial_mask() {
    let matrix = empty_matrix();
    let keycodes = blank();
    assert_eq!(active_mask_from_pressed(&matrix, &keycodes, 4, 0b0101), 0b0101);
    assert_eq!(active_mask_from_pressed(&matrix, &keycodes, 4, 0), 1);
    assert_eq!(infer_active_layer(&matrix, &keycodes, 4), 0);
}

#[test]
fn tracker_follows_to_and_toggle() {
    let mut keycodes = blank();
    let (r0, c0) = key_position(0);
    let (r1, c1) = key_position(1);
    keycodes[0][r0][c0] = 0x5202; // TO(2)
    keycodes[2][r0][c0] = KC_NO;
    keycodes[0][r1][c1] = 0x5263; // TG(3)
    keycodes[2][r1][c1] = 0x5263; // TG(3) on layer 2 too
    keycodes[3][r1][c1] = 0x0001; // transparent on layer 3
    let mut tracker = FallbackLayerTracker::default();
    let empty = empty_matrix();
    assert_eq!(tracker.update(&empty, &keycodes, 4), 0);

    let mut to_two = empty_matrix();
    press(&mut to_two, r0, c0);
    assert_eq!(tracker.update(&to_two, &keycodes, 4), 2);
    assert_eq!(tracker.persistent_mask, 0b101);
    // Holding the key brings no new press.
    assert_eq!(tracker.update(&to_two, &keycodes, 4), 2);
    assert_eq!(tracker.persistent_mask, 0b101);
    assert_eq!(tracker.update(&empty, &keycodes, 4), 2);

    let mut toggle = empty_matrix();
    press(&mut toggle, r1, c1);
    assert_eq!(tracker.update(&toggle, &keycodes, 4), 3);
    assert_eq!(tracker.persistent_mask, 0b1101);
    assert_eq!(tracker.update(&empty, &keycodes, 4), 3);
    assert_eq!(tracker.update(&toggle, &keycodes, 4), 2);
    assert_eq!(tracker.persistent_mask, 0b0101);
}

#[test]
fn tracker_result_stays_below_the_layer_count() {
    let mut tracker = FallbackLayerTracker {
        persistent_mask: 0x8000,
        previous_matrix: empty_matrix(),
    };
    let keycodes = blank();
    let matrix = empty_matrix();
    assert_eq!(tracker.update(&matrix, &keycodes, 3), 0);
    assert_eq!(tracker.persistent_mask, 1);
    let mut tracker = FallbackLayerTracker {
        persistent_mask: 0b1000_0000,
        previous_matrix: empty_matrix(),
    };
    assert_eq!(tracker.update(&matrix, &keycodes, 10), 7);
    assert_eq!(tracker.update(&matrix, &keycodes, 0), 0);
}

#[test]
fn layer_presses() {
    let mut tracker = FallbackLayerTracker::default();
    assert!(tracker.apply_layer_press(0x5243, 10)); // DF(3)
    assert_eq!(tracker.persistent_mask, 0b1001);
    assert!(!tracker.apply_layer_press(0x5269, 4)); // TG(9), past the count
    assert_eq!(tracker.persistent_mask, 0b1001);
    assert!(tracker.apply_layer_press(0x5260, 10)); // TG(0)
    assert_eq!(tracker.persistent_mask, 0b1000);
    assert!(!tracker.apply_layer_press(0x0004, 10));
    assert!(tracker.apply_layer_press(0x5209, 4)); // TO(9), past the count
    assert_eq!(tracker.persistent_mask, 1);
    tracker.move_to_layer(5, 10);
    assert_eq!(tracker.persistent_mask, 0b10_0001);
    tracker.move_to_layer(5, 3);
    assert_eq!(tracker.persistent_mask, 1);
}
