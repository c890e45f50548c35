use sofle_plus2_viewer::keycode::{
    is_direct_layer_switch, is_layer_action_keycode, momentary_layer, resolve_keycode,
    target_layer, KC_NO, KC_TRANSPARENT,
};
use sofle_plus2_viewer::label::{
    basic_keycode_label, compact_label, custom_keycode_label, draw_label, keycode_label,
    mod_prefix,
};

fn blank() -> [[[u16; 7]; 10]; 10] {
    [[[KC_NO; 7]; 10]; 10]
}

#[test]
fn momentary_layer_of_layer_keys() {
    assert_eq!(momentary_layer(0x5223), Some(3)); // MO(3)
    assert_eq!(momentary_layer(0x4204), Some(2)); // LT(2, A)
    assert_eq!(momentary_layer(0x5062), Some(3)); // LM(3, mods)
    assert_eq!(momentary_layer(0x5281), Some(1)); // OSL(1)
    assert_eq!(momentary_layer(0x52c5), Some(5)); // TT(5)
    assert_eq!(momentary_layer(0x5202), None); // TO(2)
    assert_eq!(momentary_layer(0x0004), None); // A
}

#[test]
fn target_layer_covers_layer_actions() {
    assert_eq!(target_layer(0x5202), Some(2)); // TO(2)
    assert_eq!(target_layer(0x5241), Some(1)); // DF(1)
    assert_eq!(target_layer(0x5263), Some(3)); // TG(3)
    assert_eq!(target_layer(0x52e4), Some(4)); // PDF(4)
    assert_eq!(target_layer(0x5221), Some(1)); // MO(1)
    assert_eq!(target_layer(0x0029), None); // ESC
}

#[test]
fn direct_switches_and_layer_actions() {
    assert!(is_direct_layer_switch(0x5200));
    assert!(is_direct_layer_switch(0x525f));
    assert!(is_direct_layer_switch(0x52ff));
    assert!(!is_direct_layer_switch(0x5260));
    assert!(is_layer_action_keycode(0x5260));
    assert!(is_layer_action_keycode(0x5200));
    assert!(!is_layer_action_keycode(0x5220));
}

#[test]
fn transparent_keys_fall_through() {
    let mut keycodes = blank();
    keycodes[0][1][2] = 0x0004;
    keycodes[1][1][2] = KC_TRANSPARENT;
    keycodes[2][1][2] = KC_TRANSPARENT;
    assert_eq!(resolve_keycode(&keycodes, 2, 1, 2), 0x0004);
    keycodes[0][1][2] = KC_TRANSPARENT;
    assert_eq!(resolve_keycode(&keycodes, 2, 1, 2), KC_NO);
    keycodes[9][1][2] = 0x0005;
    assert_eq!(resolve_keycode(&keycodes, 42, 1, 2), 0x0005);
}

#[test]
fn resolved_keycode_is_never_transparent() {
    let mut keycodes = blank();
    for layer in 0..10 {
        keycodes[layer][0][0] = KC_TRANSPARENT;
    }
    for layer in 0..12 {
        assert_ne!(resolve_keycode(&keycodes, layer, 0, 0), KC_TRANSPARENT);
    }
}

#[test]
fn basic_labels() {
    assert_eq!(basic_keycode_label(0x0000), "");
    assert_eq!(basic_keycode_label(0x0001), "TRNS");
    assert_eq!(basic_keycode_label(0x0004), "A");
    assert_eq!(basic_keycode_label(0x0031), "\\");
    assert_eq!(basic_keycode_label(0x004f), "RGHT");
    assert_eq!(basic_keycode_label(0x00d1), "MB1");
    assert_eq!(basic_keycode_label(0x7812), "RGB");
    assert_eq!(basic_keycode_label(0x7d00), "QMK");
    assert_eq!(basic_keycode_label(0x0064), "KC?");
}

#[test]
fn custom_labels() {
    assert_eq!(custom_keycode_label(0), "ATABF");
    assert_eq!(custom_keycode_label(27), "TPINF");
    assert_eq!(custom_keycode_label(28), "CUSTOM");
}

#[test]
fn modifier_prefixes() {
    assert_eq!(mod_prefix(0), "");
    assert_eq!(mod_prefix(0x01), "C+");
    assert_eq!(mod_prefix(0x03), "C+S+");
    assert_eq!(mod_prefix(0x1f), "C+S+A+G+R+");
}

#[test]
fn composite_labels() {
    assert_eq!(keycode_label(0x0204), "S+A"); // LSFT(A)
    assert_eq!(keycode_label(0x2129), "MT C+ESC"); // LCTL_T(ESC)
    assert_eq!(keycode_label(0x432c), "LT3/SPC");
    assert_eq!(keycode_label(0x5062), "LM3");
    assert_eq!(keycode_label(0x520b), "TO11");
    assert_eq!(keycode_label(0x5221), "MO1");
    assert_eq!(keycode_label(0x5242), "DF2");
    assert_eq!(keycode_label(0x5263), "TG3");
    assert_eq!(keycode_label(0x5284), "OSL4");
    assert_eq!(keycode_label(0x52c5), "TT5");
    assert_eq!(keycode_label(0x52e6), "PDF6");
    assert_eq!(keycode_label(0x7e11), "TPTOG");
    assert_eq!(keycode_label(0x7e1f), "CUSTOM");
    assert_eq!(keycode_label(0x0029), "ESC");
}

#[test]
fn compact_labels() {
    assert_eq!(compact_label("MT C+ESC"), "MT C+ESC");
    assert_eq!(compact_label("MT C+S+ESC"), "MT C+S..");
    assert_eq!(compact_label(""), "");
    let once = compact_label("C+S+A+G+R+ENT");
    assert_eq!(compact_label(&once), once);
    assert!(once.chars().count() <= 8);
}

#[test]
fn drawn_labels() {
    assert_eq!(draw_label("UP", true), "^");
    assert_eq!(draw_label("DOWN", true), "v");
    assert_eq!(draw_label("LEFT", true), "<");
    assert_eq!(draw_label("RGHT", true), ">");
    assert_eq!(draw_label("RIGHT", true), ">");
    assert_eq!(draw_label("MB1", true), "M1");
    assert_eq!(draw_label("BSPC", true), "BSP");
    assert_eq!(draw_label("ESC", true), "ESC");
    assert_eq!(draw_label("BSPC", false), "BSPC");
    assert_eq!(draw_label("UP", false), "UP");
}
