use sofle_plus2_viewer::keycode::KC_NO;
use sofle_plus2_viewer::matrix::{empty_matrix, key_position};
use sofle_plus2_viewer::state::{default_layer_names, LiveState};
use sofle_plus2_viewer::telemetry::{parse_telemetry_packet, TelemetryEvent};
use sofle_plus2_viewer::worker::{
    after_telemetry_wait, FallbackPoller, TelemetryAction, TelemetryWait,
    begin_keymap_load, fail_keymap_load, finish_keymap_load, keymap_layer_count,
    matrices_equal, merge_layer_name, needs_ack, note_board_name, note_connected, note_disconnected,
    note_polled_matrix, note_scanning, note_telemetry_enable_failed, note_telemetry_enabled,
    note_telemetry_event, note_telemetry_unavailable, poll_changed, TelemetryFollower,
};

fn event(kind: u8, protocol: u8, layer: u8, row0: u8, seq: u8, touch: u8) -> TelemetryEvent {
    let mut packet = [0u8; 32];
    packet[0] = 0x7a;
    packet[1] = kind;
    packet[2] = protocol;
    packet[3] = layer;
    packet[4] = row0;
    packet[14] = seq;
    packet[16] = touch;
    parse_telemetry_packet(&packet).unwrap()
}

#[test]
fn follower_reports_changes() {
    let first = event(0x81, 1, 0, 0, 0, 0);
    let mut follower = TelemetryFollower::start(&first);
    assert!(!follower.new_protocol);

    let same = follower.observe(&event(0x10, 1, 0, 0, 0, 0));
    assert!(!same.changed);
    assert_eq!(same.ack, None);
    assert_eq!(same.change_text, "");

    let press = follower.observe(&event(0x10, 1, 0, 0b1, 4, 0));
    assert!(press.changed);
    assert_eq!(press.ack, Some(4));
    assert_eq!(press.change_text, "+r0c0");
    assert!(follower.new_protocol);
    assert!(follower.last_matrix[0][0]);

    let layer = follower.observe(&event(0x10, 1, 2, 0b1, 0, 0));
    assert_eq!(layer.change_text, "layer");
    assert_eq!(follower.last_layer, 2);

    let touch = follower.observe(&event(0x10, 2, 2, 0b1, 0, 0b1));
    assert_eq!(touch.change_text, "touchpad");

    let heartbeat = follower.observe(&event(0x83, 2, 2, 0b1, 9, 0b1));
    assert!(!heartbeat.changed);
    assert_eq!(heartbeat.ack, None);
}

#[test]
fn acknowledged_events() {
    assert!(needs_ack(&event(0x10, 1, 0, 0, 3, 0)));
    assert!(!needs_ack(&event(0x10, 1, 0, 0, 0, 0)));
    assert!(!needs_ack(&event(0x81, 1, 0, 0, 3, 0)));
}

#[test]
fn newer_protocol_from_the_start() {
    let follower = TelemetryFollower::start(&event(0x81, 2, 0, 0, 0, 0));
    assert!(follower.new_protocol);
}

#[test]
fn polling_decisions() {
    let matrix = empty_matrix();
    let mut other = empty_matrix();
    other[2][3] = true;
    assert!(matrices_equal(&matrix, &matrix));
    assert!(!matrices_equal(&matrix, &other));
    assert!(poll_changed(&None, &matrix));
    assert!(!poll_changed(&Some(matrix), &matrix));
    assert!(poll_changed(&Some(matrix), &other));
}

#[test]
fn keymap_loading() {
    assert_eq!(keymap_layer_count(Some(4)), 4);
    assert_eq!(keymap_layer_count(Some(0)), 1);
    assert_eq!(keymap_layer_count(Some(32)), 10);
    assert_eq!(keymap_layer_count(None), 10);
    assert_eq!(merge_layer_name("L1".to_string(), Some("NAV".to_string())), "NAV");
    assert_eq!(merge_layer_name("L1".to_string(), Some(String::new())), "L1");
    assert_eq!(merge_layer_name("L1".to_string(), None), "L1");

    let mut state = LiveState::default();
    request_and_load(&mut state);
    assert_eq!(state.layer_count, 4);
    assert_eq!(state.status, "Live");
    assert_eq!(state.keycodes[1][2][3], 0x0004);
    fail_keymap_load(&mut state, "timed out".to_string());
    assert_eq!(state.status, "Live matrix, labels unavailable");
    assert_eq!(state.error.as_deref(), Some("timed out"));
}

fn request_and_load(state: &mut LiveState) {
    state.keymap_reload_requested = true;
    note_board_name(state, "Sofle");
    assert_eq!(state.status, "Connected to Sofle");
    begin_keymap_load(state, 4, default_layer_names());
    assert_eq!(state.status, "Loading keymap from Vial");
    assert!(!state.keymap_reload_requested);
    let mut keycodes = state.keycodes;
    keycodes[1][2][3] = 0x0004;
    finish_keymap_load(state, keycodes, "Live");
}

#[test]
fn connection_states() {
    let mut state = LiveState::default();
    note_connected(&mut state, "/dev/hidraw3".to_string(), 7);
    assert!(state.connected);
    assert_eq!(state.status, "Connected over Vial raw HID");
    assert_eq!(state.last_update, Some(7));

    let log = note_telemetry_enabled(&mut state, &event(0x81, 2, 1, 0b10, 0, 0b1), 10);
    assert_eq!(state.status, "Live telemetry");
    assert_eq!(state.active_layer, Some(1));
    assert!(state.matrix[0][1]);
    assert!(state.touchpad.telemetry.contacts[0].active);
    assert_eq!(log[0], "state_update layer=Some(1) pressed=1 changes=+r0c1");

    note_telemetry_event(&mut state, &event(0x10, 2, 0, 0, 1, 0), 20);
    assert_eq!(state.active_layer, Some(0));
    assert!(!state.matrix[0][1]);

    note_disconnected(&mut state, "hidraw endpoint closed".to_string());
    assert!(!state.connected);
    assert_eq!(state.status, "Disconnected, rescanning");
    assert_eq!(state.active_layer, None);
    assert_eq!(state.device_path, "/dev/hidraw3");

    note_scanning(&mut state, "no FC32:0287 hidraw interface found".to_string());
    assert_eq!(state.status, "Scanning for Sofle Plus 2");
    assert_eq!(state.device_path, "");

    note_telemetry_unavailable(&mut state);
    assert_eq!(state.status, "Live via Vial polling fallback");
    note_telemetry_enable_failed(&mut state, "timed out");
    assert_eq!(state.error.as_deref(), Some("telemetry enable failed: timed out"));

    let mut matrix = empty_matrix();
    matrix[0][0] = true;
    note_polled_matrix(&mut state, matrix, 3, 30);
    assert!(state.connected);
    assert_eq!(state.active_layer, Some(3));
    assert_eq!(state.error, None);
    assert_eq!(state.matrix, matrix);
    assert_eq!(state.status, "Live via Vial polling fallback");

    // At the very end of the clock the poll is still taken.
    note_polled_matrix(&mut state, empty_matrix(), 1, u64::MAX);
    assert_eq!(state.active_layer, Some(1));
    assert_eq!(state.matrix, empty_matrix());
    assert_eq!(state.last_update, Some(u64::MAX));
}

#[test]
fn actions_after_a_wait() {
    let old = TelemetryFollower::start(&event(0x81, 1, 0, 0, 0, 0));
    let new = TelemetryFollower::start(&event(0x81, 2, 0, 0, 0, 0));
    assert_eq!(after_telemetry_wait(TelemetryWait::Event, &old), TelemetryAction::TakeEvent);
    assert_eq!(
        after_telemetry_wait(TelemetryWait::TimedOut, &old),
        TelemetryAction::SendHeartbeat { new_protocol: false }
    );
    assert_eq!(
        after_telemetry_wait(TelemetryWait::TimedOut, &new),
        TelemetryAction::SendHeartbeat { new_protocol: true }
    );
    assert_eq!(after_telemetry_wait(TelemetryWait::Failed, &new), TelemetryAction::Disconnect);
}

#[test]
fn fallback_polling() {
    let mut keycodes = [[[KC_NO; 7]; 10]; 10];
    let (row, col) = key_position(0);
    keycodes[0][row][col] = 0x5202; // TO(2)
    let mut poller = FallbackPoller::default();
    let empty = empty_matrix();
    assert_eq!(poller.poll(&empty, &keycodes, 4), Some(0));
    assert_eq!(poller.poll(&empty, &keycodes, 4), None);
    let mut pressed = empty_matrix();
    pressed[row][col] = true;
    assert_eq!(poller.poll(&pressed, &keycodes, 4), Some(2));
    assert_eq!(poller.poll(&pressed, &keycodes, 4), None);
    assert_eq!(poller.tracker.persistent_mask, 0b101);
    poller.reset();
    assert_eq!(poller.last_matrix, None);
    assert_eq!(poller.tracker.persistent_mask, 1);
    assert_eq!(poller.poll(&empty, &keycodes, 4), Some(0));
}
