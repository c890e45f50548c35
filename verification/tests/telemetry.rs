use sofle_plus2_viewer::matrix::empty_matrix;
use sofle_plus2_viewer::report::{matrix_rows_hex, pressed_count};
use sofle_plus2_viewer::telemetry::{
    decode_matrix_rows, parse_telemetry_live_packet, parse_telemetry_packet,
    parse_telemetry_packet_kind, parse_touchpad_telemetry, touchpad_count, touchpad_equals,
    TelemetryKind, TouchContact, TouchpadTelemetry,
};

fn event_packet(kind: u8, protocol: u8) -> [u8; 32] {
    let mut packet = [0u8; 32];
    packet[0] = 0x7a;
    packet[1] = kind;
    packet[2] = protocol;
    packet[3] = 2;
    packet[4] = 0b0000_0101; // row 0: columns 0 and 2
    packet[13] = 0b0100_0000; // row 9: column 6
    packet[14] = 7;
    packet[15] = 0x01;
    packet
}

#[test]
fn telemetry_kind_names() {
    assert_eq!(TelemetryKind::Event.as_str(), "event");
    assert_eq!(TelemetryKind::Enabled.as_str(), "enabled");
    assert_eq!(TelemetryKind::Heartbeat.as_str(), "heartbeat");
}

#[test]
fn parses_a_version_one_event() {
    let packet = event_packet(0x10, 1);
    let event = parse_telemetry_packet(&packet).expect("event");
    assert_eq!(event.kind, TelemetryKind::Event);
    assert_eq!(event.protocol, 1);
    assert_eq!(event.active_layer, 2);
    assert_eq!(event.seq, 7);
    assert_eq!(event.flags, 1);
    assert!(event.matrix[0][0]);
    assert!(!event.matrix[0][1]);
    assert!(event.matrix[0][2]);
    assert!(event.matrix[9][6]);
    assert_eq!(touchpad_count(&event.touchpad), 0);
    assert!(!event.touchpad.enabled);
}

#[test]
fn accepts_answers_and_rejects_others() {
    assert_eq!(
        parse_telemetry_packet(&event_packet(0x81, 1)).map(|e| e.kind),
        Some(TelemetryKind::Enabled)
    );
    assert_eq!(
        parse_telemetry_live_packet(&event_packet(0x83, 2)).map(|e| e.kind),
        Some(TelemetryKind::Heartbeat)
    );
    assert!(parse_telemetry_packet_kind(&event_packet(0x81, 1), false).is_none());
    assert!(parse_telemetry_packet_kind(&event_packet(0x10, 1), false).is_some());
    assert!(parse_telemetry_packet(&event_packet(0x82, 1)).is_none());
    assert!(parse_telemetry_packet(&event_packet(0x10, 0)).is_none());
    assert!(parse_telemetry_packet(&event_packet(0x10, 3)).is_none());
    let mut other = event_packet(0x10, 1);
    other[0] = 0x02;
    assert!(parse_telemetry_packet(&other).is_none());
}

#[test]
fn active_layer_is_capped() {
    let mut packet = event_packet(0x10, 1);
    packet[3] = 200;
    assert_eq!(parse_telemetry_packet(&packet).unwrap().active_layer, 9);
}

#[test]
fn version_two_carries_the_touchpad() {
    let mut packet = event_packet(0x10, 2);
    packet[16] = 0b0_0101;
    packet[18] = 10;
    packet[19] = 20;
    packet[22] = 30;
    packet[23] = 40;
    packet[28] = 1;
    packet[29] = 0;
    let event = parse_telemetry_packet(&packet).unwrap();
    let touchpad = event.touchpad;
    assert!(touchpad.enabled);
    assert!(!touchpad.ptp_mode);
    assert_eq!(touchpad.contacts[0], TouchContact { active: true, x: 10, y: 20 });
    assert_eq!(touchpad.contacts[1], TouchContact { active: false, x: 0, y: 0 });
    assert_eq!(touchpad.contacts[2], TouchContact { active: true, x: 30, y: 40 });
    assert_eq!(touchpad_count(&touchpad), 2);
    let idle = parse_touchpad_telemetry(1, &packet);
    assert!(touchpad_equals(&idle, &TouchpadTelemetry::default()));
    assert!(!touchpad_equals(&idle, &touchpad));
}

#[test]
fn row_bytes_round_trip() {
    let packet = event_packet(0x10, 1);
    let event = parse_telemetry_packet(&packet).unwrap();
    assert_eq!(matrix_rows_hex(&event.matrix), "05:00:00:00:00:00:00:00:00:40");
    let mut bytes = [0u8; 32];
    bytes[4..14].copy_from_slice(&packet[4..14]);
    assert_eq!(decode_matrix_rows(&bytes, 4), event.matrix);
    assert_eq!(pressed_count(&event.matrix), 2); // (9, 6) is not a physical key
    assert_eq!(decode_matrix_rows(&[0u8; 32], 0), empty_matrix());
}

#[test]
fn hex_rows_are_the_masked_row_bytes() {
    let mut packet = event_packet(0x10, 1);
    for (i, byte) in packet[4..14].iter_mut().enumerate() {
        *byte = 0x80 | (i as u8 * 13);
    }
    let event = parse_telemetry_packet(&packet).unwrap();
    let expected = (4..14)
        .map(|i| format!("{:02x}", packet[i] & 0x7f))
        .collect::<Vec<_>>()
        .join(":");
    let rows = matrix_rows_hex(&event.matrix);
    assert_eq!(rows, expected);
    assert_eq!(rows.len(), 29);
}

#[test]
fn touchpad_count_is_the_contact_bits() {
    let mut packet = event_packet(0x10, 2);
    packet[16] = 0b1110_1011;
    let touchpad = parse_touchpad_telemetry(2, &packet);
    assert_eq!(touchpad_count(&touchpad), 3);
    assert_eq!(touchpad_count(&touchpad), (packet[16] & 0x1f).count_ones() as usize);
    assert_eq!(touchpad_count(&parse_touchpad_telemetry(1, &packet)), 0);
    packet[16] = 0xff;
    assert_eq!(touchpad_count(&parse_touchpad_telemetry(2, &packet)), 5);
}
