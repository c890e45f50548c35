use vstd::prelude::*;

use crate::keycode::{
    QK_DEF_LAYER, QK_DEF_LAYER_MAX, QK_KB_0, QK_LAYER_MOD, QK_LAYER_MOD_MAX, QK_LAYER_TAP,
    QK_LAYER_TAP_MAX, QK_LAYER_TAP_TOGGLE, QK_LAYER_TAP_TOGGLE_MAX, QK_MODS, QK_MODS_MAX,
    QK_MOD_TAP, QK_MOD_TAP_MAX, QK_MOMENTARY, QK_MOMENTARY_MAX, QK_ONE_SHOT_LAYER,
    QK_ONE_SHOT_LAYER_MAX, QK_PERSISTENT_DEF_LAYER, QK_PERSISTENT_DEF_LAYER_MAX, QK_TO, QK_TO_MAX,
    QK_TOGGLE_LAYER, QK_TOGGLE_LAYER_MAX,
};
use crate::text::{decimal, push_decimal, text_equals, text_of};

verus! {

/// The label of a basic keycode (letters, digits, punctuation, function,
/// navigation, keypad, media and mouse keys, modifiers).
pub open spec fn spec_basic_keycode_label(keycode: u16) -> Seq<char> {
    match keycode {
        0x0000 => ""@,
        0x0001 => "TRNS"@,
        0x0004 => "A"@,
        0x0005 => "B"@,
        0x0006 => "C"@,
        0x0007 => "D"@,
        0x0008 => "E"@,
        0x0009 => "F"@,
        0x000a => "G"@,
        0x000b => "H"@,
        0x000c => "I"@,
        0x000d => "J"@,
        0x000e => "K"@,
        0x000f => "L"@,
        0x0010 => "M"@,
        0x0011 => "N"@,
        0x0012 => "O"@,
        0x0013 => "P"@,
        0x0014 => "Q"@,
        0x0015 => "R"@,
        0x0016 => "S"@,
        0x0017 => "T"@,
        0x0018 => "U"@,
        0x0019 => "V"@,
        0x001a => "W"@,
        0x001b => "X"@,
        0x001c => "Y"@,
        0x001d => "Z"@,
        0x001e => "1"@,
        0x001f => "2"@,
        0x0020 => "3"@,
        0x0021 => "4"@,
        0x0022 => "5"@,
        0x0023 => "6"@,
        0x0024 => "7"@,
        0x0025 => "8"@,
        0x0026 => "9"@,
        0x0027 => "0"@,
        0x0028 => "ENT"@,
        0x0029 => "ESC"@,
        0x002a => "BSPC"@,
        0x002b => "TAB"@,
        0x002c => "SPC"@,
        0x002d => "-"@,
        0x002e => "="@,
        0x002f => "["@,
        0x0030 => "]"@,
        0x0031 => "\\"@,
        0x0032 => "NUHS"@,
        0x0033 => ";"@,
        0x0034 => "'"@,
        0x0035 => "`"@,
        0x0036 => ","@,
        0x0037 => "."@,
        0x0038 => "/"@,
        0x0039 => "CAPS"@,
        0x003a => "F1"@,
        0x003b => "F2"@,
        0x003c => "F3"@,
        0x003d => "F4"@,
        0x003e => "F5"@,
        0x003f => "F6"@,
        0x0040 => "F7"@,
        0x0041 => "F8"@,
        0x0042 => "F9"@,
        0x0043 => "F10"@,
        0x0044 => "F11"@,
        0x0045 => "F12"@,
        0x0046 => "PSCR"@,
        0x0047 => "SCRL"@,
        0x0048 => "PAUS"@,
        0x0049 => "INS"@,
        0x004a => "HOME"@,
        0x004b => "PGUP"@,
        0x004c => "DEL"@,
        0x004d => "END"@,
        0x004e => "PGDN"@,
        0x004f => "RGHT"@,
        0x0050 => "LEFT"@,
        0x0051 => "DOWN"@,
        0x0052 => "UP"@,
        0x0053 => "NUM"@,
        0x0054 => "KP/"@,
        0x0055 => "KP*"@,
        0x0056 => "KP-"@,
        0x0057 => "KP+"@,
        0x0058 => "KPENT"@,
        0x0059 => "KP1"@,
        0x005a => "KP2"@,
        0x005b => "KP3"@,
        0x005c => "KP4"@,
        0x005d => "KP5"@,
        0x005e => "KP6"@,
        0x005f => "KP7"@,
        0x0060 => "KP8"@,
        0x0061 => "KP9"@,
        0x0062 => "KP0"@,
        0x0063 => "KPDOT"@,
        0x0065 => "APP"@,
        0x0066 => "POWER"@,
        0x0067 => "KPEQL"@,
        0x00a5 => "PWR"@,
        0x00a6 => "SLEEP"@,
        0x00a7 => "WAKE"@,
        0x00a8 => "MUTE"@,
        0x00a9 => "VOL+"@,
        0x00aa => "VOL-"@,
        0x00ab => "NEXT"@,
        0x00ac => "PREV"@,
        0x00ad => "STOP"@,
        0x00ae => "PLAY"@,
        0x00af => "MSEL"@,
        0x00b0 => "EJECT"@,
        0x00b1 => "MAIL"@,
        0x00b2 => "CALC"@,
        0x00b3 => "MYPC"@,
        0x00b4 => "SRCH"@,
        0x00b5 => "WWW"@,
        0x00b6 => "BACK"@,
        0x00b7 => "FWD"@,
        0x00b8 => "WSTOP"@,
        0x00b9 => "RFRS"@,
        0x00ba => "FAV"@,
        0x00bb => "FFWD"@,
        0x00bc => "RWD"@,
        0x00bd => "BRI+"@,
        0x00be => "BRI-"@,
        0x00c0 => "ASST"@,
        0x00c1 => "MC"@,
        0x00c2 => "LPAD"@,
        0x00cd => "MSUP"@,
        0x00ce => "MSDN"@,
        0x00cf => "MSLFT"@,
        0x00d0 => "MSRGT"@,
        0x00d1 => "MB1"@,
        0x00d2 => "MB2"@,
        0x00d3 => "MB3"@,
        0x00d9 => "WHUP"@,
        0x00da => "WHDN"@,
        0x00db => "WHL"@,
        0x00dc => "WHR"@,
        0x00dd => "ACL0"@,
        0x00de => "ACL1"@,
        0x00df => "ACL2"@,
        0x00e0 => "LCTL"@,
        0x00e1 => "LSFT"@,
        0x00e2 => "LALT"@,
        0x00e3 => "LGUI"@,
        0x00e4 => "RCTL"@,
        0x00e5 => "RSFT"@,
        0x00e6 => "RALT"@,
        0x00e7 => "RGUI"@,
        k if 0x7800 <= k && k <= 0x78ff => "RGB"@,
        k if 0x7c00 <= k && k <= 0x7dff => "QMK"@,
        _ => "KC?"@,
    }
}

/// The labels of the keyboard's own keycodes, from `QK_KB_0` on.
pub open spec fn spec_custom_keycode_label(index: usize) -> Seq<char> {
    match index {
        0 => "ATABF"@,
        1 => "ATABR"@,
        2 => "ATMU"@,
        3 => "ATMD"@,
        4 => "POWER"@,
        5 => "SCRUD"@,
        6 => "SCRLR"@,
        7 => "DPI+"@,
        8 => "DPI-"@,
        9 => "DPI0"@,
        10 => "SCR+"@,
        11 => "SCR-"@,
        12 => "SCR0"@,
        13 => "LASCR"@,
        14 => "LASW2"@,
        15 => "LASW3"@,
        16 => "LA0"@,
        17 => "TPTOG"@,
        18 => "SNPMO"@,
        19 => "SNPTG"@,
        20 => "SNPLR"@,
        21 => "SNP+"@,
        22 => "SNP-"@,
        23 => "SNPSH"@,
        24 => "OSTOG"@,
        25 => "ZMTOG"@,
        26 => "GLOBE"@,
        27 => "TPINF"@,
        _ => "CUSTOM"@,
    }
}

/// The modifier prefix for a five-bit modifier set: Ctrl, Shift, Alt, GUI,
/// and the right-hand flag, in that order.
pub open spec fn spec_mod_prefix(mods: u8) -> Seq<char> {
    (if mods & 0x01u8 != 0 {
        "C+"@
    } else {
        Seq::empty()
    }) + (if mods & 0x02u8 != 0 {
        "S+"@
    } else {
        Seq::empty()
    }) + (if mods & 0x04u8 != 0 {
        "A+"@
    } else {
        Seq::empty()
    }) + (if mods & 0x08u8 != 0 {
        "G+"@
    } else {
        Seq::empty()
    }) + (if mods & 0x10u8 != 0 {
        "R+"@
    } else {
        Seq::empty()
    })
}

/// The label of any keycode: modifier combinations, mod-taps and layer-taps
/// name their parts; layer keys name their layer; the keyboard's own
/// keycodes have their own names; the rest are basic keycodes.
pub open spec fn spec_keycode_label(keycode: u16) -> Seq<char>
    decreases keycode,
{
    if QK_MODS <= keycode <= QK_MODS_MAX {
        spec_mod_prefix(((keycode / 256) % 32) as u8) + spec_keycode_label(keycode % 256)
    } else if QK_MOD_TAP <= keycode <= QK_MOD_TAP_MAX {
        "MT "@ + spec_mod_prefix(((keycode / 256) % 32) as u8) + spec_keycode_label(keycode % 256)
    } else if QK_LAYER_TAP <= keycode <= QK_LAYER_TAP_MAX {
        "LT"@ + decimal(((keycode / 256) % 16) as nat) + "/"@ + spec_keycode_label(keycode % 256)
    } else if QK_LAYER_MOD <= keycode <= QK_LAYER_MOD_MAX {
        "LM"@ + decimal(((keycode / 32) % 16) as nat)
    } else if QK_TO <= keycode <= QK_TO_MAX {
        "TO"@ + decimal((keycode % 32) as nat)
    } else if QK_MOMENTARY <= keycode <= QK_MOMENTARY_MAX {
        "MO"@ + decimal((keycode % 32) as nat)
    } else if QK_DEF_LAYER <= keycode <= QK_DEF_LAYER_MAX {
        "DF"@ + decimal((keycode % 32) as nat)
    } else if QK_TOGGLE_LAYER <= keycode <= QK_TOGGLE_LAYER_MAX {
        "TG"@ + decimal((keycode % 32) as nat)
    } else if QK_ONE_SHOT_LAYER <= keycode <= QK_ONE_SHOT_LAYER_MAX {
        "OSL"@ + decimal((keycode % 32) as nat)
    } else if QK_LAYER_TAP_TOGGLE <= keycode <= QK_LAYER_TAP_TOGGLE_MAX {
        "TT"@ + decimal((keycode % 32) as nat)
    } else if QK_PERSISTENT_DEF_LAYER <= keycode <= QK_PERSISTENT_DEF_LAYER_MAX {
        "PDF"@ + decimal((keycode % 32) as nat)
    } else if QK_KB_0 <= keycode <= QK_KB_0 + 31 {
        spec_custom_keycode_label((keycode - QK_KB_0) as usize)
    } else {
        spec_basic_keycode_label(keycode)
    }
}

/// A label cut down to at most eight characters: longer ones keep their
/// first six and end in "..".
pub open spec fn spec_compact_label(label: Seq<char>) -> Seq<char> {
    if label.len() <= 8 {
        label
    } else {
        label.subrange(0, 6) + ".."@
    }
}

/// The label drawn on a key: on a small key, the arrows become symbols,
/// "MB1" becomes "M1" and other labels keep at most three characters.
pub open spec fn spec_draw_label(label: Seq<char>, compact_key: bool) -> Seq<char> {
    if !compact_key {
        label
    } else if label == "UP"@ {
        "^"@
    } else if label == "DOWN"@ {
        "v"@
    } else if label == "LEFT"@ {
        "<"@
    } else if label == "RGHT"@ || label == "RIGHT"@ {
        ">"@
    } else if label == "MB1"@ {
        "M1"@
    } else if label.len() > 3 {
        label.subrange(0, 3)
    } else {
        label
    }
}

/// The label of a basic keycode.
pub fn basic_keycode_label(keycode: u16) -> (r: &'static str)
    ensures
        r@ == spec_basic_keycode_label(keycode),
{
    match keycode {
        0x0000 => "",
        0x0001 => "TRNS",
        0x0004 => "A",
        0x0005 => "B",
        0x0006 => "C",
        0x0007 => "D",
        0x0008 => "E",
        0x0009 => "F",
        0x000a => "G",
        0x000b => "H",
        0x000c => "I",
        0x000d => "J",
        0x000e => "K",
        0x000f => "L",
        0x0010 => "M",
        0x0011 => "N",
        0x0012 => "O",
        0x0013 => "P",
        0x0014 => "Q",
        0x0015 => "R",
        0x0016 => "S",
        0x0017 => "T",
        0x0018 => "U",
        0x0019 => "V",
        0x001a => "W",
        0x001b => "X",
        0x001c => "Y",
        0x001d => "Z",
        0x001e => "1",
        0x001f => "2",
        0x0020 => "3",
        0x0021 => "4",
        0x0022 => "5",
        0x0023 => "6",
        0x0024 => "7",
        0x0025 => "8",
        0x0026 => "9",
        0x0027 => "0",
        0x0028 => "ENT",
        0x0029 => "ESC",
        0x002a => "BSPC",
        0x002b => "TAB",
        0x002c => "SPC",
        0x002d => "-",
        0x002e => "=",
        0x002f => "[",
        0x0030 => "]",
        0x0031 => "\\",
        0x0032 => "NUHS",
        0x0033 => ";",
        0x0034 => "'",
        0x0035 => "`",
        0x0036 => ",",
        0x0037 => ".",
        0x0038 => "/",
        0x0039 => "CAPS",
        0x003a => "F1",
        0x003b => "F2",
        0x003c => "F3",
        0x003d => "F4",
        0x003e => "F5",
        0x003f => "F6",
        0x0040 => "F7",
        0x0041 => "F8",
        0x0042 => "F9",
        0x0043 => "F10",
        0x0044 => "F11",
        0x0045 => "F12",
        0x0046 => "PSCR",
        0x0047 => "SCRL",
        0x0048 => "PAUS",
        0x0049 => "INS",
        0x004a => "HOME",
        0x004b => "PGUP",
        0x004c => "DEL",
        0x004d => "END",
        0x004e => "PGDN",
        0x004f => "RGHT",
        0x0050 => "LEFT",
        0x0051 => "DOWN",
        0x0052 => "UP",
        0x0053 => "NUM",
        0x0054 => "KP/",
        0x0055 => "KP*",
        0x0056 => "KP-",
        0x0057 => "KP+",
        0x0058 => "KPENT",
        0x0059 => "KP1",
        0x005a => "KP2",
        0x005b => "KP3",
        0x005c => "KP4",
        0x005d => "KP5",
        0x005e => "KP6",
        0x005f => "KP7",
        0x0060 => "KP8",
        0x0061 => "KP9",
        0x0062 => "KP0",
        0x0063 => "KPDOT",
        0x0065 => "APP",
        0x0066 => "POWER",
        0x0067 => "KPEQL",
        0x00a5 => "PWR",
        0x00a6 => "SLEEP",
        0x00a7 => "WAKE",
        0x00a8 => "MUTE",
        0x00a9 => "VOL+",
        0x00aa => "VOL-",
        0x00ab => "NEXT",
        0x00ac => "PREV",
        0x00ad => "STOP",
        0x00ae => "PLAY",
        0x00af => "MSEL",
        0x00b0 => "EJECT",
        0x00b1 => "MAIL",
        0x00b2 => "CALC",
        0x00b3 => "MYPC",
        0x00b4 => "SRCH",
        0x00b5 => "WWW",
        0x00b6 => "BACK",
        0x00b7 => "FWD",
        0x00b8 => "WSTOP",
        0x00b9 => "RFRS",
        0x00ba => "FAV",
        0x00bb => "FFWD",
        0x00bc => "RWD",
        0x00bd => "BRI+",
        0x00be => "BRI-",
        0x00c0 => "ASST",
        0x00c1 => "MC",
        0x00c2 => "LPAD",
        0x00cd => "MSUP",
        0x00ce => "MSDN",
        0x00cf => "MSLFT",
        0x00d0 => "MSRGT",
        0x00d1 => "MB1",
        0x00d2 => "MB2",
        0x00d3 => "MB3",
        0x00d9 => "WHUP",
        0x00da => "WHDN",
        0x00db => "WHL",
        0x00dc => "WHR",
        0x00dd => "ACL0",
        0x00de => "ACL1",
        0x00df => "ACL2",
        0x00e0 => "LCTL",
        0x00e1 => "LSFT",
        0x00e2 => "LALT",
        0x00e3 => "LGUI",
        0x00e4 => "RCTL",
        0x00e5 => "RSFT",
        0x00e6 => "RALT",
        0x00e7 => "RGUI",
        k if 0x7800 <= k && k <= 0x78ff => "RGB",
        k if 0x7c00 <= k && k <= 0x7dff => "QMK",
        _ => "KC?",
    }
}

/// The label of the keyboard's own keycode number `index`.
pub fn custom_keycode_label(index: usize) -> (r: &'static str)
    ensures
        r@ == spec_custom_keycode_label(index),
{
    match index {
        0 => "ATABF",
        1 => "ATABR",
        2 => "ATMU",
        3 => "ATMD",
        4 => "POWER",
        5 => "SCRUD",
        6 => "SCRLR",
        7 => "DPI+",
        8 => "DPI-",
        9 => "DPI0",
        10 => "SCR+",
        11 => "SCR-",
        12 => "SCR0",
        13 => "LASCR",
        14 => "LASW2",
        15 => "LASW3",
        16 => "LA0",
        17 => "TPTOG",
        18 => "SNPMO",
        19 => "SNPTG",
        20 => "SNPLR",
        21 => "SNP+",
        22 => "SNP-",
        23 => "SNPSH",
        24 => "OSTOG",
        25 => "ZMTOG",
        26 => "GLOBE",
        27 => "TPINF",
        _ => "CUSTOM",
    }
}

/// The prefix naming the modifiers in `mods`.
pub fn mod_prefix(mods: u8) -> (r: String)
    ensures
        r@ == spec_mod_prefix(mods),
{
    let mut out = String::new();
    if mods & 0x01 != 0 {
        out.append("C+");
    }
    if mods & 0x02 != 0 {
        out.append("S+");
    }
    if mods & 0x04 != 0 {
        out.append("A+");
    }
    if mods & 0x08 != 0 {
        out.append("G+");
    }
    if mods & 0x10 != 0 {
        out.append("R+");
    }
    assert(out@ =~= spec_mod_prefix(mods));
    out
}

proof fn lemma_mod_bit_added(mods: u8, bit: u8)
    requires
        bit == 1 || bit == 2 || bit == 4 || bit == 8 || bit == 16,
        mods < bit,
    ensures
        ((mods + bit) as u8) & bit != 0,
        mods & bit == 0,
        forall|other: u8|
            (other == 1 || other == 2 || other == 4 || other == 8 || other == 16) && other != bit
                ==> (((mods + bit) as u8) & other != 0) == (mods & other != 0),
        forall|other: u8|
            (other == 1 || other == 2 || other == 4 || other == 8 || other == 16) && other > bit
                ==> mods & other == 0,
{
    assert(mods < bit ==> (mods + bit) as u8 == mods | bit) by (bit_vector)
        requires bit == 1 || bit == 2 || bit == 4 || bit == 8 || bit == 16;
    assert(mods < bit ==> ((mods | bit) & bit != 0 && mods & bit == 0)) by (bit_vector)
        requires bit == 1 || bit == 2 || bit == 4 || bit == 8 || bit == 16;
    assert forall|other: u8|
        (other == 1 || other == 2 || other == 4 || other == 8 || other == 16) && other != bit
            implies (((mods + bit) as u8) & other != 0) == (mods & other != 0) by {
        assert(((mods | bit) & other != 0) == (mods & other != 0)) by (bit_vector)
            requires
                bit == 1 || bit == 2 || bit == 4 || bit == 8 || bit == 16,
                other == 1 || other == 2 || other == 4 || other == 8 || other == 16,
                other != bit;
    }
    assert forall|other: u8|
        (other == 1 || other == 2 || other == 4 || other == 8 || other == 16) && other > bit
            implies mods & other == 0 by {
        assert(mods & other == 0) by (bit_vector)
            requires
                bit == 1 || bit == 2 || bit == 4 || bit == 8 || bit == 16,
                other == 1 || other == 2 || other == 4 || other == 8 || other == 16,
                other > bit,
                mods < bit;
    }
}

/// The modifier prefix follows the bits of the mods byte, lowest first:
/// bit 0 is Ctrl ("C+"), bit 1 Shift ("S+"), bit 2 Alt ("A+"), bit 3 GUI
/// ("G+") and bit 4 the right-hand flag ("R+"). No bit gives no prefix;
/// setting a bit above all those already set appends its name; the three
/// high bits change nothing.
pub proof fn lemma_mod_prefix_names_bits(mods: u8)
    ensures
        spec_mod_prefix(0) == Seq::<char>::empty(),
        mods < 1 ==> spec_mod_prefix((mods + 1) as u8) == spec_mod_prefix(mods) + "C+"@,
        mods < 2 ==> spec_mod_prefix((mods + 2) as u8) == spec_mod_prefix(mods) + "S+"@,
        mods < 4 ==> spec_mod_prefix((mods + 4) as u8) == spec_mod_prefix(mods) + "A+"@,
        mods < 8 ==> spec_mod_prefix((mods + 8) as u8) == spec_mod_prefix(mods) + "G+"@,
        mods < 16 ==> spec_mod_prefix((mods + 16) as u8) == spec_mod_prefix(mods) + "R+"@,
        spec_mod_prefix(mods) == spec_mod_prefix(mods % 32),
{
    assert(0u8 & 1u8 == 0 && 0u8 & 2u8 == 0 && 0u8 & 4u8 == 0 && 0u8 & 8u8 == 0 && 0u8 & 16u8
        == 0) by (bit_vector);
    assert(spec_mod_prefix(0) =~= Seq::<char>::empty());
    if mods < 1 {
        lemma_mod_bit_added(mods, 1);
        assert(spec_mod_prefix((mods + 1) as u8) =~= spec_mod_prefix(mods) + "C+"@);
    }
    if mods < 2 {
        lemma_mod_bit_added(mods, 2);
        assert(spec_mod_prefix((mods + 2) as u8) =~= spec_mod_prefix(mods) + "S+"@);
    }
    if mods < 4 {
        lemma_mod_bit_added(mods, 4);
        assert(spec_mod_prefix((mods + 4) as u8) =~= spec_mod_prefix(mods) + "A+"@);
    }
    if mods < 8 {
        lemma_mod_bit_added(mods, 8);
        assert(spec_mod_prefix((mods + 8) as u8) =~= spec_mod_prefix(mods) + "G+"@);
    }
    if mods < 16 {
        lemma_mod_bit_added(mods, 16);
        assert(spec_mod_prefix((mods + 16) as u8) =~= spec_mod_prefix(mods) + "R+"@);
    }
    assert((mods % 32) & 1 == mods & 1 && (mods % 32) & 2 == mods & 2 && (mods % 32) & 4 == mods
        & 4 && (mods % 32) & 8 == mods & 8 && (mods % 32) & 16 == mods & 16) by (bit_vector);
}

/// The labels of keycodes built from parts name those parts: a basic key
/// with modifiers (`mods` in the high byte) is the modifier prefix and the
/// key's label; a mod-tap adds "MT "; LT(l, kc) is "LT", the layer, "/" and
/// the key; LM(l, mods) is "LM" and the layer; each layer key (TO, MO, DF,
/// TG, OSL, TT, PDF) is its name and its layer.
pub proof fn lemma_composite_labels_name_parts(mods: u16, layer: u16, kc: u16)
    requires
        mods < 32,
        layer < 32,
        kc < 256,
    ensures
        1 <= mods ==> spec_keycode_label((256 * mods + kc) as u16) == spec_mod_prefix(mods as u8)
            + spec_keycode_label(kc),
        spec_keycode_label((QK_MOD_TAP + 256 * mods + kc) as u16) == "MT "@ + spec_mod_prefix(
            mods as u8,
        ) + spec_keycode_label(kc),
        layer < 16 ==> spec_keycode_label((QK_LAYER_TAP + 256 * layer + kc) as u16) == "LT"@
            + decimal(layer as nat) + "/"@ + spec_keycode_label(kc),
        layer < 16 && kc < 32 ==> spec_keycode_label((QK_LAYER_MOD + 32 * layer + kc) as u16)
            == "LM"@ + decimal(layer as nat),
        spec_keycode_label((QK_TO + layer) as u16) == "TO"@ + decimal(layer as nat),
        spec_keycode_label((QK_MOMENTARY + layer) as u16) == "MO"@ + decimal(layer as nat),
        spec_keycode_label((QK_DEF_LAYER + layer) as u16) == "DF"@ + decimal(layer as nat),
        spec_keycode_label((QK_TOGGLE_LAYER + layer) as u16) == "TG"@ + decimal(layer as nat),
        spec_keycode_label((QK_ONE_SHOT_LAYER + layer) as u16) == "OSL"@ + decimal(layer as nat),
        spec_keycode_label((QK_LAYER_TAP_TOGGLE + layer) as u16) == "TT"@ + decimal(
            layer as nat,
        ),
        spec_keycode_label((QK_PERSISTENT_DEF_LAYER + layer) as u16) == "PDF"@ + decimal(
            layer as nat,
        ),
{
    let modded = 256 * mods + kc;
    assert((modded / 256) % 32 == mods && modded % 256 == kc);
    let tap = QK_MOD_TAP + 256 * mods + kc;
    assert((tap / 256) % 32 == mods && tap % 256 == kc);
    if layer < 16 {
        let lt = QK_LAYER_TAP + 256 * layer + kc;
        assert((lt / 256) % 16 == layer && lt % 256 == kc);
        if kc < 32 {
            let lm = QK_LAYER_MOD + 32 * layer + kc;
            assert((lm / 32) % 16 == layer);
        }
    }
}

/// The label of `keycode`.
pub fn keycode_label(keycode: u16) -> (r: String)
    ensures
        r@ == spec_keycode_label(keycode),
    decreases keycode,
{
    proof {
        assert(keycode & 0x1f == keycode % 32) by (bit_vector);
        assert((keycode >> 8u16) & 0x0f == (keycode / 256) % 16) by (bit_vector);
        assert((keycode >> 5u16) & 0x0f == (keycode / 32) % 16) by (bit_vector);
        assert(keycode & 0xff == keycode % 256) by (bit_vector);
        assert((keycode >> 8u16) & 0x1f == (keycode / 256) % 32) by (bit_vector);
    }
    if QK_MODS <= keycode && keycode <= QK_MODS_MAX {
        let mods = ((keycode >> 8) & 0x1f) as u8;
        let base = keycode & 0xff;
        let mut out = mod_prefix(mods);
        let rest = keycode_label(base);
        out.append(rest.as_str());
        return out;
    }
    if QK_MOD_TAP <= keycode && keycode <= QK_MOD_TAP_MAX {
        let mods = ((keycode >> 8) & 0x1f) as u8;
        let base = keycode & 0xff;
        let mut out = text_of("MT ");
        let prefix = mod_prefix(mods);
        out.append(prefix.as_str());
        let rest = keycode_label(base);
        out.append(rest.as_str());
        return out;
    }
    if QK_LAYER_TAP <= keycode && keycode <= QK_LAYER_TAP_MAX {
        let layer = (keycode >> 8) & 0x0f;
        let base = keycode & 0xff;
        let mut out = text_of("LT");
        push_decimal(&mut out, layer as u64);
        out.append("/");
        let rest = keycode_label(base);
        out.append(rest.as_str());
        return out;
    }
    if QK_LAYER_MOD <= keycode && keycode <= QK_LAYER_MOD_MAX {
        let mut out = text_of("LM");
        push_decimal(&mut out, ((keycode >> 5) & 0x0f) as u64);
        return out;
    }
    if QK_TO <= keycode && keycode <= QK_TO_MAX {
        return numbered_label("TO", keycode & 0x1f);
    }
    if QK_MOMENTARY <= keycode && keycode <= QK_MOMENTARY_MAX {
        return numbered_label("MO", keycode & 0x1f);
    }
    if QK_DEF_LAYER <= keycode && keycode <= QK_DEF_LAYER_MAX {
        return numbered_label("DF", keycode & 0x1f);
    }
    if QK_TOGGLE_LAYER <= keycode && keycode <= QK_TOGGLE_LAYER_MAX {
        return numbered_label("TG", keycode & 0x1f);
    }
    if QK_ONE_SHOT_LAYER <= keycode && keycode <= QK_ONE_SHOT_LAYER_MAX {
        return numbered_label("OSL", keycode & 0x1f);
    }
    if QK_LAYER_TAP_TOGGLE <= keycode && keycode <= QK_LAYER_TAP_TOGGLE_MAX {
        return numbered_label("TT", keycode & 0x1f);
    }
    if QK_PERSISTENT_DEF_LAYER <= keycode && keycode <= QK_PERSISTENT_DEF_LAYER_MAX {
        return numbered_label("PDF", keycode & 0x1f);
    }
    if QK_KB_0 <= keycode && keycode <= QK_KB_0 + 31 {
        return text_of(custom_keycode_label((keycode - QK_KB_0) as usize));
    }
    text_of(basic_keycode_label(keycode))
}

/// `name` followed by the decimal number `n`.
fn numbered_label(name: &str, n: u16) -> (r: String)
    ensures
        r@ == name@ + decimal(n as nat),
{
    let mut out = text_of(name);
    push_decimal(&mut out, n as u64);
    out
}

/// The longest label that is shown whole.
pub const COMPACT_LABEL_MAX: usize = 8;

/// `label` cut down to at most eight characters.
pub fn compact_label(label: &str) -> (r: String)
    ensures
        r@ == spec_compact_label(label@),
{
    if label.unicode_len() <= COMPACT_LABEL_MAX {
        return text_of(label);
    }
    let mut out = text_of(label.substring_char(0, COMPACT_LABEL_MAX - 2));
    out.append("..");
    out
}

/// The label to draw on a key, shortened for small keys.
pub fn draw_label(label: &str, compact_key: bool) -> (r: String)
    ensures
        r@ == spec_draw_label(label@, compact_key),
{
    if !compact_key {
        return text_of(label);
    }
    if text_equals(label, "UP") {
        text_of("^")
    } else if text_equals(label, "DOWN") {
        text_of("v")
    } else if text_equals(label, "LEFT") {
        text_of("<")
    } else if text_equals(label, "RGHT") || text_equals(label, "RIGHT") {
        text_of(">")
    } else if text_equals(label, "MB1") {
        text_of("M1")
    } else if label.unicode_len() > 3 {
        text_of(label.substring_char(0, 3))
    } else {
        text_of(label)
    }
}

/// A compacted label has at most eight characters, and compacting it again
/// changes nothing.
pub proof fn lemma_compact_label_idempotent(label: Seq<char>)
    ensures
        spec_compact_label(label).len() <= 8,
        spec_compact_label(spec_compact_label(label)) == spec_compact_label(label),
{
    reveal_strlit("..");
}

/// A label drawn on a small key has at most three characters; on a normal
/// key it is the label itself.
pub proof fn lemma_draw_label_short(label: Seq<char>, compact_key: bool)
    ensures
        compact_key ==> spec_draw_label(label, compact_key).len() <= 3,
        !compact_key ==> spec_draw_label(label, compact_key) == label,
{
    reveal_strlit("^");
    reveal_strlit("v");
    reveal_strlit("<");
    reveal_strlit(">");
    reveal_strlit("M1");
}

} // verus!
