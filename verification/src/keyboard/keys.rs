//! Key codes, flags and the shortcuts they stand for.
use vstd::prelude::*;

use super::{
    FLAG_MASK_ALTERNATE, FLAG_MASK_COMMAND, FLAG_MASK_CONTROL, FLAG_MASK_SECONDARY_FN, FLAG_MASK_SHIFT, KEYCODE_C, KEYCODE_D, KEYCODE_FUNCTION, KEYCODE_GLOBE_FUNCTION, KEYCODE_P, KeyboardTrigger, ListenerState, cheat_sheet_trigger, flags_modifiers, has_other_modifiers, key_name_text, start_trigger, unknown_key_label, within, wrap_inc,
};
use crate::settings::{ShortcutAction, ShortcutBinding, ShortcutModifiers};
use crate::text::{chars_of, owned, push_decimal, string_from_chars};

verus! {

pub fn wrapping_inc(g: u64) -> (r: u64)
    ensures
        r == wrap_inc(g),
{
    if g == u64::MAX {
        0
    } else {
        g + 1
    }
}

pub fn within_exec(earlier: Option<u64>, later: u64, limit: u64) -> (r: bool)
    ensures
        r == within(earlier, later, limit),
{
    match earlier {
        Some(e) => e <= later && later - e <= limit,
        None => false,
    }
}

pub fn key_name(keycode: i64) -> (r: (&'static str, &'static str))
    ensures
        r.0@ == key_name_text(keycode).0,
        r.1@ == key_name_text(keycode).1,
{
    match keycode {
        0 => ("a", "A"),
        1 => ("s", "S"),
        2 => ("d", "D"),
        3 => ("f", "F"),
        4 => ("h", "H"),
        5 => ("g", "G"),
        6 => ("z", "Z"),
        7 => ("x", "X"),
        8 => ("c", "C"),
        9 => ("v", "V"),
        11 => ("b", "B"),
        12 => ("q", "Q"),
        13 => ("w", "W"),
        14 => ("e", "E"),
        15 => ("r", "R"),
        16 => ("y", "Y"),
        17 => ("t", "T"),
        18 => ("1", "1"),
        19 => ("2", "2"),
        20 => ("3", "3"),
        21 => ("4", "4"),
        22 => ("6", "6"),
        23 => ("5", "5"),
        24 => ("equal", "="),
        25 => ("9", "9"),
        26 => ("7", "7"),
        27 => ("minus", "-"),
        28 => ("8", "8"),
        29 => ("0", "0"),
        30 => ("rightBracket", "]"),
        31 => ("o", "O"),
        32 => ("u", "U"),
        33 => ("leftBracket", "["),
        34 => ("i", "I"),
        35 => ("p", "P"),
        36 => ("return", "Return"),
        37 => ("l", "L"),
        38 => ("j", "J"),
        39 => ("quote", "'"),
        40 => ("k", "K"),
        41 => ("semicolon", ";"),
        42 => ("backslash", "\\"),
        43 => ("comma", ","),
        44 => ("slash", "/"),
        45 => ("n", "N"),
        46 => ("m", "M"),
        47 => ("period", "."),
        48 => ("tab", "Tab"),
        49 => ("space", "Space"),
        50 => ("grave", "`"),
        51 => ("delete", "Delete"),
        53 => ("escape", "Escape"),
        65 => ("keypadDecimal", "Keypad ."),
        67 => ("keypadMultiply", "Keypad *"),
        69 => ("keypadPlus", "Keypad +"),
        71 => ("clear", "Clear"),
        75 => ("keypadDivide", "Keypad /"),
        76 => ("keypadEnter", "Keypad Enter"),
        78 => ("keypadMinus", "Keypad -"),
        81 => ("keypadEquals", "Keypad ="),
        82 => ("keypad0", "Keypad 0"),
        83 => ("keypad1", "Keypad 1"),
        84 => ("keypad2", "Keypad 2"),
        85 => ("keypad3", "Keypad 3"),
        86 => ("keypad4", "Keypad 4"),
        87 => ("keypad5", "Keypad 5"),
        88 => ("keypad6", "Keypad 6"),
        89 => ("keypad7", "Keypad 7"),
        91 => ("keypad8", "Keypad 8"),
        92 => ("keypad9", "Keypad 9"),
        96 => ("f5", "F5"),
        97 => ("f6", "F6"),
        98 => ("f7", "F7"),
        99 => ("f3", "F3"),
        100 => ("f8", "F8"),
        101 => ("f9", "F9"),
        103 => ("f11", "F11"),
        105 => ("f13", "F13"),
        106 => ("f16", "F16"),
        107 => ("f14", "F14"),
        109 => ("f10", "F10"),
        111 => ("f12", "F12"),
        113 => ("f15", "F15"),
        114 => ("help", "Help"),
        115 => ("home", "Home"),
        116 => ("pageUp", "Page Up"),
        117 => ("forwardDelete", "Forward Delete"),
        118 => ("f4", "F4"),
        119 => ("end", "End"),
        120 => ("f2", "F2"),
        121 => ("pageDown", "Page Down"),
        122 => ("f1", "F1"),
        123 => ("leftArrow", "Left"),
        124 => ("rightArrow", "Right"),
        125 => ("downArrow", "Down"),
        126 => ("upArrow", "Up"),
        _ => ("unknown", "Key"),
    }
}

pub fn modifiers_from_flags(flags: u64) -> (r: ShortcutModifiers)
    ensures
        r == flags_modifiers(flags),
{
    ShortcutModifiers {
        command: flags & FLAG_MASK_COMMAND != 0,
        option: flags & FLAG_MASK_ALTERNATE != 0,
        control: flags & FLAG_MASK_CONTROL != 0,
        shift: flags & FLAG_MASK_SHIFT != 0,
        function: flags & FLAG_MASK_SECONDARY_FN != 0,
    }
}

pub fn shortcut_from_key_event(keycode: i64, flags: u64) -> (r: ShortcutBinding)
    ensures
        r.key_code == Some(keycode),
        r.modifiers == flags_modifiers(flags),
        r.key@ == crate::settings::normalized_key(key_name_text(keycode).0),
        r.label@ == crate::settings::normalized_label(
            Some(keycode),
            crate::settings::normalized_key(key_name_text(keycode).0),
            if key_name_text(keycode).0 == "unknown"@ {
                unknown_key_label(keycode)
            } else {
                key_name_text(keycode).1
            },
            flags_modifiers(flags),
        ),
{
    let (key, label) = key_name(keycode);
    let label_text = if crate::text::str_eq(key, "unknown") {
        let mut v = if keycode >= 0 {
            chars_of("Key ")
        } else {
            chars_of("Key -")
        };
        let magnitude: u64 = if keycode >= 0 {
            keycode as u64
        } else if keycode == i64::MIN {
            9223372036854775808u64
        } else {
            (0 - keycode) as u64
        };
        push_decimal(&mut v, magnitude);
        string_from_chars(&v)
    } else {
        owned(label)
    };
    ShortcutBinding::from_parts(Some(keycode), owned(key), label_text, modifiers_from_flags(flags))
}

pub fn is_function_keycode(keycode: i64) -> (r: bool)
    ensures
        r == (keycode == KEYCODE_FUNCTION || keycode == KEYCODE_GLOBE_FUNCTION),
{
    keycode == KEYCODE_FUNCTION || keycode == KEYCODE_GLOBE_FUNCTION
}

pub fn start_trigger_for_shortcut(state: &ListenerState, shortcut: &ShortcutBinding) -> (r: Option<
    KeyboardTrigger,
>)
    ensures
        r == start_trigger(state.runtime, *shortcut),
{
    if shortcut.is_same_shortcut(&state.runtime.voice_dictation_shortcut) {
        Some(KeyboardTrigger::VoiceDictationStart)
    } else if shortcut.is_same_shortcut(&state.runtime.voice_ask_shortcut) {
        Some(KeyboardTrigger::FunctionSpace)
    } else if shortcut.is_same_shortcut(&state.runtime.polish_selection_shortcut) {
        Some(KeyboardTrigger::PolishSelection)
    } else {
        None
    }
}

pub fn cheat_sheet_trigger_for_key(state: &ListenerState, keycode: i64) -> (r: Option<KeyboardTrigger>)
    ensures
        r == cheat_sheet_trigger(state.fn_hold_cheat_sheet_visible, keycode),
{
    if !state.fn_hold_cheat_sheet_visible {
        return None;
    }
    if keycode == KEYCODE_D {
        Some(KeyboardTrigger::VoiceDictationStart)
    } else if keycode == KEYCODE_P {
        Some(KeyboardTrigger::PolishSelection)
    } else if keycode == KEYCODE_C {
        Some(KeyboardTrigger::CmdCopyDouble)
    } else {
        None
    }
}

pub fn control_has_other_modifiers(flags: u64) -> (r: bool)
    ensures
        r == has_other_modifiers(flags),
{
    let other_modifiers = FLAG_MASK_SHIFT | FLAG_MASK_ALTERNATE | FLAG_MASK_COMMAND
        | FLAG_MASK_SECONDARY_FN;
    (flags & other_modifiers) != 0
}


} // verus!
