use sofle_plus2_viewer::matrix::{empty_matrix, key_position};
use sofle_plus2_viewer::state::{
    apply_matrix_update, apply_touchpad_update, clear_matrix_state, current_active_layer,
    keymap_snapshot, next_visible_expiry, pressed_labels, request_keymap_reload,
    stale_pressed_labels, take_keymap_reload, visible_count, visual_only_count, LiveState,
    KEY_FLASH_DURATION_US,
};
use sofle_plus2_viewer::telemetry::{TouchContact, TouchpadTelemetry};

#[test]
fn default_state() {
    let state = LiveState::default();
    assert!(!state.connected);
    assert_eq!(state.status, "Scanning for Sofle Plus 2");
    assert_eq!(state.layer_count, 10);
    assert_eq!(state.layer_names[0], "L0");
    assert_eq!(state.layer_names[9], "L9");
    assert_eq!(state.active_layer, None);
    assert!(!state.keymap_reload_requested);
    assert_eq!(current_active_layer(&state), 0);
}

#[test]
fn matrix_updates_track_presses() {
    let mut state = LiveState::default();
    let mut matrix = empty_matrix();
    matrix[0][0] = true;
    let log = apply_matrix_update(&mut state, matrix, Some(2), 1_000_000);
    assert_eq!(log, vec!["state_update layer=Some(2) pressed=1 changes=+r0c0"]);
    assert_eq!(state.pressed_since[0][0], Some(1_000_000));
    assert_eq!(state.visible_until[0][0], Some(1_000_000 + KEY_FLASH_DURATION_US));
    assert_eq!(state.last_update, Some(1_000_000));
    assert_eq!(state.active_layer, Some(2));

    // Held: the press keeps its start, the light is renewed.
    let log = apply_matrix_update(&mut state, matrix, Some(2), 1_100_000);
    assert_eq!(log, vec!["state_update layer=Some(2) pressed=1 changes=none"]);
    assert_eq!(state.pressed_since[0][0], Some(1_000_000));
    assert_eq!(state.visible_until[0][0], Some(1_175_000));

    // Released after 350 ms.
    let log = apply_matrix_update(&mut state, empty_matrix(), None, 1_350_000);
    assert_eq!(
        log,
        vec!["state_update layer=None pressed=0 changes=-r0c0", "release_ages r0c0:350ms"]
    );
    assert_eq!(state.pressed_since[0][0], None);
    assert_eq!(state.visible_until[0][0], Some(1_175_000));
}

#[test]
fn highlight_expiry_and_counts() {
    let mut state = LiveState::default();
    let mut matrix = empty_matrix();
    matrix[0][1] = true;
    apply_matrix_update(&mut state, matrix, Some(0), 10_000);
    assert_eq!(next_visible_expiry(&state, 10_000), Some(75_000));
    assert_eq!(visible_count(&state, 10_000), 1);
    assert_eq!(visual_only_count(&state, 10_000), 0);
    apply_matrix_update(&mut state, empty_matrix(), Some(0), 20_000);
    assert_eq!(next_visible_expiry(&state, 20_000), Some(65_000));
    assert_eq!(visible_count(&state, 20_000), 1);
    assert_eq!(visual_only_count(&state, 20_000), 1);
    assert_eq!(next_visible_expiry(&state, 85_000), Some(0));
    assert_eq!(visible_count(&state, 85_000), 0);
    assert_eq!(next_visible_expiry(&state, 85_001), None);
}

#[test]
fn labels_of_pressed_and_stale_keys() {
    let mut state = LiveState::default();
    let (row, col) = key_position(1);
    state.keycodes[0][row][col] = 0x0004; // A
    state.keycodes[1][row][col] = 0x0029; // ESC
    let mut matrix = empty_matrix();
    matrix[row][col] = true;
    apply_matrix_update(&mut state, matrix, Some(1), 0);
    assert_eq!(pressed_labels(&state, 0), vec!["A r0c1"]);
    assert_eq!(pressed_labels(&state, 1), vec!["ESC r0c1"]);
    assert!(stale_pressed_labels(&state, 100_000, 250_000).is_empty());
    assert_eq!(stale_pressed_labels(&state, 300_000, 250_000), vec!["ESC r0c1 300ms"]);
    state.layer_count = 1;
    assert_eq!(current_active_layer(&state), 0);
    assert_eq!(stale_pressed_labels(&state, 300_000, 250_000), vec!["A r0c1 300ms"]);
}

#[test]
fn inferred_layer_when_none_is_reported() {
    let mut state = LiveState::default();
    let (row, col) = key_position(0);
    state.keycodes[0][row][col] = 0x5223; // MO(3)
    state.matrix[row][col] = true;
    assert_eq!(current_active_layer(&state), 3);
    state.layer_count = 3;
    assert_eq!(current_active_layer(&state), 0);
    state.active_layer = Some(7);
    assert_eq!(current_active_layer(&state), 2);
}

#[test]
fn reload_requests_are_taken_once() {
    let mut state = LiveState::default();
    assert!(!take_keymap_reload(&mut state));
    request_keymap_reload(&mut state);
    assert_eq!(state.status, "Reloading keymap");
    assert!(take_keymap_reload(&mut state));
    assert!(!take_keymap_reload(&mut state));
    let (keycodes, count) = keymap_snapshot(&state);
    assert_eq!(count, 10);
    assert_eq!(keycodes, state.keycodes);
}

#[test]
fn clearing_the_matrix() {
    let mut state = LiveState::default();
    let mut matrix = empty_matrix();
    matrix[3][3] = true;
    apply_matrix_update(&mut state, matrix, Some(1), 5);
    let mut touchpad = TouchpadTelemetry::default();
    touchpad.enabled = true;
    touchpad.contacts[0] = TouchContact { active: true, x: 1, y: 2 };
    apply_touchpad_update(&mut state, touchpad, 6);
    assert_eq!(state.touchpad.last_update, Some(6));
    assert!(state.touchpad.telemetry.enabled);
    clear_matrix_state(&mut state);
    assert_eq!(state.matrix, empty_matrix());
    assert_eq!(state.pressed_since[3][3], None);
    assert_eq!(state.visible_until[3][3], None);
    assert_eq!(state.touchpad.last_update, None);
    assert!(!state.touchpad.telemetry.enabled);
    assert_eq!(state.active_layer, Some(1));
}

#[test]
fn highlight_stops_at_the_clock_end() {
    let mut state = LiveState::default();
    let mut matrix = empty_matrix();
    matrix[2][3] = true;
    apply_matrix_update(&mut state, matrix, None, u64::MAX - 1_000);
    assert_eq!(state.visible_until[2][3], Some(u64::MAX));
    assert_eq!(state.pressed_since[2][3], Some(u64::MAX - 1_000));
    assert_eq!(visible_count(&state, u64::MAX - 1), 1);
}
