use vstd::prelude::*;

use crate::matrix::{keycode_at, Keycodes, COLS, MAX_LAYERS, ROWS};

verus! {

/// The empty key.
pub const KC_NO: u16 = 0x0000;

/// A key that falls through to the layer below.
pub const KC_TRANSPARENT: u16 = 0x0001;

/// Basic keycode combined with modifiers.
pub const QK_MODS: u16 = 0x0100;

pub const QK_MODS_MAX: u16 = 0x1fff;

/// Mod-tap: modifier when held, basic keycode when tapped.
pub const QK_MOD_TAP: u16 = 0x2000;

pub const QK_MOD_TAP_MAX: u16 = 0x3fff;

/// Layer-tap: layer while held, basic keycode when tapped.
pub const QK_LAYER_TAP: u16 = 0x4000;

pub const QK_LAYER_TAP_MAX: u16 = 0x4fff;

/// Layer-mod: layer and modifiers while held.
pub const QK_LAYER_MOD: u16 = 0x5000;

pub const QK_LAYER_MOD_MAX: u16 = 0x51ff;

/// Switch to a layer, turning the others off.
pub const QK_TO: u16 = 0x5200;

pub const QK_TO_MAX: u16 = 0x521f;

/// A layer while held.
pub const QK_MOMENTARY: u16 = 0x5220;

pub const QK_MOMENTARY_MAX: u16 = 0x523f;

/// Set the default layer.
pub const QK_DEF_LAYER: u16 = 0x5240;

pub const QK_DEF_LAYER_MAX: u16 = 0x525f;

/// Toggle a layer on or off.
pub const QK_TOGGLE_LAYER: u16 = 0x5260;

pub const QK_TOGGLE_LAYER_MAX: u16 = 0x527f;

/// A layer for the next key press only.
pub const QK_ONE_SHOT_LAYER: u16 = 0x5280;

pub const QK_ONE_SHOT_LAYER_MAX: u16 = 0x529f;

/// Layer while held, toggled after repeated taps.
pub const QK_LAYER_TAP_TOGGLE: u16 = 0x52c0;

pub const QK_LAYER_TAP_TOGGLE_MAX: u16 = 0x52df;

/// Set the default layer and store it.
pub const QK_PERSISTENT_DEF_LAYER: u16 = 0x52e0;

pub const QK_PERSISTENT_DEF_LAYER_MAX: u16 = 0x52ff;

/// First of the keyboard's own custom keycodes.
pub const QK_KB_0: u16 = 0x7e00;

/// Keycodes that move the keyboard to a layer for good: TO, DF and PDF.
pub open spec fn spec_is_direct_layer_switch(keycode: u16) -> bool {
    ||| QK_TO <= keycode <= QK_TO_MAX
    ||| QK_DEF_LAYER <= keycode <= QK_DEF_LAYER_MAX
    ||| QK_PERSISTENT_DEF_LAYER <= keycode <= QK_PERSISTENT_DEF_LAYER_MAX
}

/// Keycodes that change the persistent layer state: the direct switches and TG.
pub open spec fn spec_is_layer_action_keycode(keycode: u16) -> bool {
    spec_is_direct_layer_switch(keycode) || (QK_TOGGLE_LAYER <= keycode <= QK_TOGGLE_LAYER_MAX)
}

/// The layer that a key turns on while it is held (MO, LT, LM, OSL, TT).
pub open spec fn spec_momentary_layer(keycode: u16) -> Option<usize> {
    if QK_MOMENTARY <= keycode <= QK_MOMENTARY_MAX {
        Some((keycode % 32) as usize)
    } else if QK_LAYER_TAP <= keycode <= QK_LAYER_TAP_MAX {
        Some(((keycode / 256) % 16) as usize)
    } else if QK_LAYER_MOD <= keycode <= QK_LAYER_MOD_MAX {
        Some(((keycode / 32) % 16) as usize)
    } else if (QK_ONE_SHOT_LAYER <= keycode <= QK_ONE_SHOT_LAYER_MAX) || (QK_LAYER_TAP_TOGGLE
        <= keycode <= QK_LAYER_TAP_TOGGLE_MAX) {
        Some((keycode % 32) as usize)
    } else {
        None
    }
}

/// The layer that a layer key refers to, held or persistent.
pub open spec fn spec_target_layer(keycode: u16) -> Option<usize> {
    match spec_momentary_layer(keycode) {
        Some(layer) => Some(layer),
        None => if spec_is_layer_action_keycode(keycode) {
            Some((keycode % 32) as usize)
        } else {
            None
        },
    }
}

/// The keycode seen at `row`, `col` when the top `count` layers from layer
/// `count - 1` down are searched: the first one that is not transparent, or
/// `KC_NO` when every one of them is.
pub open spec fn spec_resolve_keycode(keycodes: Keycodes, count: nat, row: int, col: int) -> u16
    decreases count,
{
    if count == 0 {
        KC_NO
    } else {
        let keycode = keycode_at(keycodes, count - 1, row, col);
        if keycode != KC_TRANSPARENT {
            keycode
        } else {
            spec_resolve_keycode(keycodes, (count - 1) as nat, row, col)
        }
    }
}

/// The number of layers searched when a key is looked up on `layer`.
pub open spec fn layers_searched(layer: usize) -> nat {
    if layer < MAX_LAYERS {
        (layer + 1) as nat
    } else {
        MAX_LAYERS as nat
    }
}

proof fn lemma_low_bits(keycode: u16)
    ensures
        keycode & 0x1f == keycode % 32,
        (keycode >> 8u16) & 0x0f == (keycode / 256) % 16,
        (keycode >> 5u16) & 0x0f == (keycode / 32) % 16,
        keycode & 0xff == keycode % 256,
        (keycode >> 8u16) & 0x1f == (keycode / 256) % 32,
{
    assert(keycode & 0x1f == keycode % 32) by (bit_vector);
    assert((keycode >> 8u16) & 0x0f == (keycode / 256) % 16) by (bit_vector);
    assert((keycode >> 5u16) & 0x0f == (keycode / 32) % 16) by (bit_vector);
    assert(keycode & 0xff == keycode % 256) by (bit_vector);
    assert((keycode >> 8u16) & 0x1f == (keycode / 256) % 32) by (bit_vector);
}

/// Whether `keycode` is TO, DF or PDF.
pub fn is_direct_layer_switch(keycode: u16) -> (r: bool)
    ensures
        r == spec_is_direct_layer_switch(keycode),
{
    (QK_TO <= keycode && keycode <= QK_TO_MAX) || (QK_DEF_LAYER <= keycode && keycode
        <= QK_DEF_LAYER_MAX) || (QK_PERSISTENT_DEF_LAYER <= keycode && keycode
        <= QK_PERSISTENT_DEF_LAYER_MAX)
}

/// Whether `keycode` is TO, DF, PDF or TG.
pub fn is_layer_action_keycode(keycode: u16) -> (r: bool)
    ensures
        r == spec_is_layer_action_keycode(keycode),
{
    is_direct_layer_switch(keycode) || (QK_TOGGLE_LAYER <= keycode && keycode
        <= QK_TOGGLE_LAYER_MAX)
}

/// The layer that `keycode` turns on while held, if it is such a key.
pub fn momentary_layer(keycode: u16) -> (r: Option<usize>)
    ensures
        r == spec_momentary_layer(keycode),
{
    proof {
        lemma_low_bits(keycode);
    }
    if QK_MOMENTARY <= keycode && keycode <= QK_MOMENTARY_MAX {
        Some((keycode & 0x1f) as usize)
    } else if QK_LAYER_TAP <= keycode && keycode <= QK_LAYER_TAP_MAX {
        Some(((keycode >> 8) & 0x0f) as usize)
    } else if QK_LAYER_MOD <= keycode && keycode <= QK_LAYER_MOD_MAX {
        Some(((keycode >> 5) & 0x0f) as usize)
    } else if (QK_ONE_SHOT_LAYER <= keycode && keycode <= QK_ONE_SHOT_LAYER_MAX) || (
    QK_LAYER_TAP_TOGGLE <= keycode && keycode <= QK_LAYER_TAP_TOGGLE_MAX) {
        Some((keycode & 0x1f) as usize)
    } else {
        None
    }
}

/// The layer that `keycode` refers to, if it is a layer key.
pub fn target_layer(keycode: u16) -> (r: Option<usize>)
    ensures
        r == spec_target_layer(keycode),
{
    proof {
        lemma_low_bits(keycode);
    }
    if let Some(layer) = momentary_layer(keycode) {
        Some(layer)
    } else if is_layer_action_keycode(keycode) {
        Some((keycode & 0x1f) as usize)
    } else {
        None
    }
}

/// The keycode that the key at `row`, `col` sends on `layer`: transparent
/// entries fall through to the layers below; a layer above the last one
/// counts as the last one.
pub fn resolve_keycode(keycodes: &Keycodes, layer: usize, row: usize, col: usize) -> (r: u16)
    requires
        row < ROWS,
        col < COLS,
    ensures
        r == spec_resolve_keycode(*keycodes, layers_searched(layer), row as int, col as int),
{
    let top: usize = if layer < MAX_LAYERS - 1 {
        layer
    } else {
        MAX_LAYERS - 1
    };
    let mut count: usize = top + 1;
    while count > 0
        invariant
            count <= top + 1,
            top < MAX_LAYERS,
            row < ROWS,
            col < COLS,
            layers_searched(layer) == top + 1,
            spec_resolve_keycode(*keycodes, layers_searched(layer), row as int, col as int)
                == spec_resolve_keycode(*keycodes, count as nat, row as int, col as int),
        decreases count,
    {
        let keycode = keycodes[count - 1][row][col];
        if keycode != KC_TRANSPARENT {
            return keycode;
        }
        count = count - 1;
    }
    KC_NO
}

/// A looked-up keycode is never the transparent one: transparency always
/// falls through, down to `KC_NO` below the lowest layer.
pub proof fn lemma_resolved_keycode_is_not_transparent(
    keycodes: Keycodes,
    count: nat,
    row: int,
    col: int,
)
    ensures
        spec_resolve_keycode(keycodes, count, row, col) != KC_TRANSPARENT,
    decreases count,
{
    if count > 0 {
        lemma_resolved_keycode_is_not_transparent(keycodes, (count - 1) as nat, row, col);
    }
}

/// A key looked up on the first `count` layers sends the entry of the
/// highest of those layers whose entry is not `KC_TRANSPARENT`, whatever that
/// entry is (`KC_NO` included); only when every entry is transparent does it
/// send `KC_NO`.
pub proof fn lemma_resolve_takes_highest_opaque_entry(
    keycodes: Keycodes,
    count: nat,
    row: int,
    col: int,
)
    ensures
        forall|l: int|
            0 <= l < count && #[trigger] keycode_at(keycodes, l, row, col) != KC_TRANSPARENT && (
            forall|m: int| l < m < count ==> keycode_at(keycodes, m, row, col) == KC_TRANSPARENT)
                ==> spec_resolve_keycode(keycodes, count, row, col) == keycode_at(
                keycodes,
                l,
                row,
                col,
            ),
        (forall|l: int| 0 <= l < count ==> keycode_at(keycodes, l, row, col) == KC_TRANSPARENT)
            ==> spec_resolve_keycode(keycodes, count, row, col) == KC_NO,
    decreases count,
{
    if count > 0 {
        lemma_resolve_takes_highest_opaque_entry(keycodes, (count - 1) as nat, row, col);
        let top = count - 1;
        assert forall|l: int|
            0 <= l < count && #[trigger] keycode_at(keycodes, l, row, col) != KC_TRANSPARENT && (
            forall|m: int| l < m < count ==> keycode_at(keycodes, m, row, col) == KC_TRANSPARENT)
                implies spec_resolve_keycode(keycodes, count, row, col) == keycode_at(
            keycodes,
            l,
            row,
            col,
        ) by {
            if l < top {
                assert(keycode_at(keycodes, top, row, col) == KC_TRANSPARENT);
                assert(forall|m: int|
                    l < m < top ==> keycode_at(keycodes, m, row, col) == KC_TRANSPARENT);
            }
        }
        if forall|l: int| 0 <= l < count ==> keycode_at(keycodes, l, row, col) == KC_TRANSPARENT {
            assert(keycode_at(keycodes, top, row, col) == KC_TRANSPARENT);
        }
    }
}

/// The layer keys hold the layer they are made with: MO(n), OSL(n) and
/// TT(n) hold layer n, LT(l, kc) and LM(l, mods) hold layer l; TO(n), DF(n),
/// PDF(n) and TG(n) hold no layer while pressed, but name layer n as their
/// target.
pub proof fn lemma_layer_keys_name_their_layer(n: u16, kc: u16)
    requires
        n < 32,
        kc < 256,
    ensures
        spec_momentary_layer((QK_MOMENTARY + n) as u16) == Some(n as usize),
        spec_momentary_layer((QK_ONE_SHOT_LAYER + n) as u16) == Some(n as usize),
        spec_momentary_layer((QK_LAYER_TAP_TOGGLE + n) as u16) == Some(n as usize),
        n < 16 ==> spec_momentary_layer((QK_LAYER_TAP + 256 * n + kc) as u16) == Some(
            n as usize,
        ),
        n < 16 && kc < 32 ==> spec_momentary_layer((QK_LAYER_MOD + 32 * n + kc) as u16) == Some(
            n as usize,
        ),
        spec_momentary_layer((QK_TO + n) as u16) is None,
        spec_momentary_layer((QK_DEF_LAYER + n) as u16) is None,
        spec_momentary_layer((QK_PERSISTENT_DEF_LAYER + n) as u16) is None,
        spec_momentary_layer((QK_TOGGLE_LAYER + n) as u16) is None,
        spec_target_layer((QK_TO + n) as u16) == Some(n as usize),
        spec_target_layer((QK_DEF_LAYER + n) as u16) == Some(n as usize),
        spec_target_layer((QK_PERSISTENT_DEF_LAYER + n) as u16) == Some(n as usize),
        spec_target_layer((QK_TOGGLE_LAYER + n) as u16) == Some(n as usize),
        spec_momentary_layer(kc) is None,
        spec_target_layer(kc) is None,
{
    if n < 16 {
        let lt = QK_LAYER_TAP + 256 * n + kc;
        assert((lt / 256) % 16 == n);
        if kc < 32 {
            let lm = QK_LAYER_MOD + 32 * n + kc;
            assert((lm / 32) % 16 == n);
        }
    }
}

/// Every layer key that is held for a layer is also a layer key:
/// `target_layer` agrees with `momentary_layer` wherever the latter is set,
/// and the layer named by TO, DF, PDF or TG is its low five bits.
pub proof fn lemma_target_layer_extends_momentary(keycode: u16)
    ensures
        spec_momentary_layer(keycode) is Some ==> spec_target_layer(keycode)
            == spec_momentary_layer(keycode),
        spec_target_layer(keycode) is Some <==> (spec_momentary_layer(keycode) is Some
            || spec_is_layer_action_keycode(keycode)),
        spec_target_layer(keycode) matches Some(layer) ==> layer < 32,
{
}

} // verus!
