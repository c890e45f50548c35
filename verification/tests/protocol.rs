use sofle_plus2_viewer::protocol::{
    bytes_to_name, decode_keycode, decode_layer_count, decode_oled_name, decode_protocol_version,
    decode_switch_matrix, duration_to_i32_millis, hid_output_report, hidraw_sort_key,
    is_supported_protocol, keycode_request, layer_count_request, oled_name_request,
    packet_from_hid_buffer, protocol_version_request, switch_matrix_request,
    telemetry_ack_request, telemetry_enable_request, telemetry_heartbeat_request,
};

fn starts(packet: &[u8; 32], head: &[u8]) -> bool {
    packet[..head.len()] == *head && packet[head.len()..].iter().all(|b| *b == 0)
}

#[test]
fn requests() {
    assert!(starts(&protocol_version_request(), &[0x01]));
    assert!(starts(&layer_count_request(), &[0x11]));
    assert!(starts(&oled_name_request(0xff), &[0x08, 0x52, 0xff]));
    assert!(starts(&keycode_request(3, 4, 5), &[0x04, 3, 4, 5]));
    assert!(starts(&switch_matrix_request(), &[0x02, 0x03]));
    assert!(starts(&telemetry_enable_request(), &[0x7a, 0x01, 1]));
    assert!(starts(&telemetry_heartbeat_request(true), &[0x7a, 0x03, 1]));
    assert!(starts(&telemetry_heartbeat_request(false), &[0x7a, 0x01, 1]));
    assert!(starts(&telemetry_ack_request(9), &[0x7a, 0x02, 1, 9]));
}

#[test]
fn decoded_replies() {
    let mut reply = [0u8; 32];
    reply[0] = 0x01;
    reply[1] = 0x00;
    reply[2] = 0x09;
    assert_eq!(decode_protocol_version(&reply), Some(9));
    assert!(is_supported_protocol(9));
    assert!(!is_supported_protocol(0x000c));
    reply[0] = 0xff;
    assert_eq!(decode_protocol_version(&reply), None);

    let mut reply = [0u8; 32];
    reply[1] = 4;
    reply[4] = 0x52;
    reply[5] = 0x21;
    assert_eq!(decode_layer_count(&reply), 4);
    assert_eq!(decode_keycode(&reply), 0x5221);

    let mut reply = [0u8; 32];
    reply[2] = 0b0000_0011;
    reply[11] = 0b0100_0000;
    let matrix = decode_switch_matrix(&reply);
    assert!(matrix[0][0] && matrix[0][1] && !matrix[0][2]);
    assert!(matrix[9][6]);
}

#[test]
fn names_from_byte_fields() {
    assert_eq!(bytes_to_name(b"BASE\0"), "BASE");
    assert_eq!(bytes_to_name(b"GAME1"), "GAME1");
    assert_eq!(bytes_to_name(b"NAV\0X"), "NAV");
    assert_eq!(bytes_to_name(b" FN  "), "FN");
    assert_eq!(bytes_to_name(b"\0ABCD"), "");
    assert_eq!(bytes_to_name(&[0xff, b'A']), "\u{fffd}A");
    let mut reply = [0u8; 32];
    reply[3..8].copy_from_slice(b"GAME ");
    reply[8] = b'X';
    assert_eq!(decode_oled_name(&reply), "GAME");
}

#[test]
fn hid_buffers() {
    let mut buffer = [0u8; 64];
    for (i, byte) in buffer.iter_mut().enumerate() {
        *byte = i as u8;
    }
    // A report id of zero is skipped.
    let packet = packet_from_hid_buffer(&buffer, 33);
    assert_eq!(packet[0], 1);
    assert_eq!(packet[31], 32);
    buffer[0] = 0x7a;
    let packet = packet_from_hid_buffer(&buffer, 40);
    assert_eq!(packet[0], 0x7a);
    assert_eq!(packet[31], 31);
    let packet = packet_from_hid_buffer(&buffer, 3);
    assert_eq!(&packet[..4], &[0x7a, 1, 2, 0]);
    let report = hid_output_report(&telemetry_ack_request(5));
    assert_eq!(report[0], 0);
    assert_eq!(&report[1..5], &[0x7a, 0x02, 1, 5]);
}

#[test]
fn timeouts_in_millis() {
    assert_eq!(duration_to_i32_millis(0), 0);
    assert_eq!(duration_to_i32_millis(250), 250);
    assert_eq!(duration_to_i32_millis(u128::MAX), i32::MAX);
    assert_eq!(duration_to_i32_millis(i32::MAX as u128), i32::MAX);
}

#[test]
fn hidraw_order() {
    assert_eq!(hidraw_sort_key("hidraw0"), 0);
    assert_eq!(hidraw_sort_key("hidraw12"), 12);
    assert_eq!(hidraw_sort_key("hidraw+3"), 3);
    assert_eq!(hidraw_sort_key("hidraw"), u32::MAX);
    assert_eq!(hidraw_sort_key("hidrawx"), u32::MAX);
    assert_eq!(hidraw_sort_key("hidraw99999999999"), u32::MAX);
    assert_eq!(hidraw_sort_key("hidraw4294967295"), u32::MAX);
    assert_eq!(hidraw_sort_key("hidraw4294967294"), 4294967294);
    assert_eq!(hidraw_sort_key("event3"), u32::MAX);
}
