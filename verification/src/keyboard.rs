//! The global keyboard listener's decisions: which key events become which
//! triggers. The listener is a state machine fed with key events and the time
//! they arrived; it queues triggers to send and timers to start, and the
//! event tap around it delivers both.
use vstd::prelude::*;

pub mod capture;
pub mod events;
pub mod fn_keys;
pub mod keys;
pub mod laws;
pub mod ops;

pub use events::{set_meta, set_control_down, set_control_chord, set_fn_chord, set_fn_space_down, set_fn_space_combo, set_last_cmd_c, handle_control_edge, handle_flags_changed, hide_cheat_sheet_if_visible, mark_control_chord_exec, handle_escape, begin_space_chord, finish_space_chord, handle_fn_chord, handle_cmd_c, handle_key_shortcut, handle_key_down_rest, handle_key_down, handle_key_up, handle_event, settle_exec, spawn_listener, set_runtime, update_runtime_settings, start_capture_exec, begin_shortcut_capture, cancel_shortcut_capture, set_voice_overlay_visible, take_triggers, take_timers};
pub use capture::{clear_capture_exec, clear_chord_exec, end_capture_exec, complete_capture, cancel_capture, complete_pending_capture_fn_tap, handle_capture_fn_released, handle_capture_fn_change, handle_capture_key_down, send_voice_shortcut_if_matched};
pub use fn_keys::{clear_pending_release, set_fn_down, dispatch_fn_change, trigger_for_confirmed_fn_tap, confirm_pending_fn_tap, schedule_fn_hold_cheat_sheet, handle_fn_pressed, handle_fn_released, fire_fn_tap_grace, fire_fn_hold_cheat_sheet, handle_control_pressed, handle_control_released, after_source_exec, handle_function_source_change, handle_function_modifier_change, handle_function_keycode_change};
pub use keys::{wrapping_inc, within_exec, key_name, modifiers_from_flags, shortcut_from_key_event, is_function_keycode, start_trigger_for_shortcut, cheat_sheet_trigger_for_key, control_has_other_modifiers};
pub use ops::{push_trigger, push_trigger_opt, push_timer, invalidate_pending_fn_tap, invalidate_pending_fn_hold_cheat_sheet, hide_fn_hold_cheat_sheet, reset_fn_tap_sequence, reset_function_sources, cancel_pending_capture_fn_completion, invalidate_pending_capture_fn_tap};

use crate::settings::{
    clone_binding, no_modifiers, normalized_key, normalized_label, same_shortcut, AppSettings,
    BindingView, ShortcutAction, ShortcutBinding, ShortcutModifiers,
};
use crate::text::{chars_of, owned, push_decimal, string_from_chars};

verus! {

pub const KEYCODE_C: i64 = 8;

pub const KEYCODE_D: i64 = 2;

pub const KEYCODE_P: i64 = 35;

pub const KEYCODE_SPACE: i64 = 49;

pub const KEYCODE_ESCAPE: i64 = 53;

pub const KEYCODE_FUNCTION: i64 = 63;

pub const KEYCODE_GLOBE_FUNCTION: i64 = 179;

pub const FLAG_MASK_SHIFT: u64 = 0x0002_0000;

pub const FLAG_MASK_CONTROL: u64 = 0x0004_0000;

pub const FLAG_MASK_ALTERNATE: u64 = 0x0008_0000;

pub const FLAG_MASK_COMMAND: u64 = 0x0010_0000;

pub const FLAG_MASK_SECONDARY_FN: u64 = 0x0080_0000;

/// After an Fn release, a Space within this window still makes Fn+Space.
pub const FN_SPACE_GRACE_MS: u64 = 80;

/// Holding Fn this long shows the shortcut cheat sheet.
pub const FN_HOLD_CHEAT_SHEET_MS: u64 = 500;

/// Fn reported by both the modifier flag and a key code within this window is one press.
pub const FN_SOURCE_DEDUP_MS: u64 = 80;

#[derive(Debug, Clone, PartialEq, Eq)]
pub enum KeyboardTrigger {
    CmdCopyDouble,
    /// A bare Fn tap that did not become a chord.
    FunctionTap,
    /// The configured dictation start shortcut.
    VoiceDictationStart,
    /// Space with Fn held: ask mode.
    FunctionSpace,
    /// The configured shortcut for polishing the selected text.
    PolishSelection,
    ShortcutCheatSheetShow,
    ShortcutCheatSheetHide,
    /// Control tapped by itself.
    VoiceModeCycle,
    Escape,
    ShortcutCaptured { action: ShortcutAction, shortcut: ShortcutBinding },
    ShortcutCaptureCancelled { action: ShortcutAction, reason: String },
}

/// The settings the listener works with.
#[derive(Debug, Clone)]
pub struct KeyboardRuntimeSettings {
    pub double_tap_threshold_ms: u64,
    pub voice_dictation_shortcut: ShortcutBinding,
    pub voice_ask_shortcut: ShortcutBinding,
    pub polish_selection_shortcut: ShortcutBinding,
}

impl KeyboardRuntimeSettings {
    /// The listener settings taken from the app settings.
    pub fn from_settings(settings: &AppSettings) -> (r: Self)
        ensures
            r.double_tap_threshold_ms == settings.app.double_tap_threshold_ms,
            r.voice_dictation_shortcut == settings.shortcuts.voice_dictation,
            r.voice_ask_shortcut == settings.shortcuts.voice_ask,
            r.polish_selection_shortcut == settings.shortcuts.polish_selection,
    {
        KeyboardRuntimeSettings {
            double_tap_threshold_ms: settings.app.double_tap_threshold_ms,
            voice_dictation_shortcut: clone_binding(&settings.shortcuts.voice_dictation),
            voice_ask_shortcut: clone_binding(&settings.shortcuts.voice_ask),
            polish_selection_shortcut: clone_binding(&settings.shortcuts.polish_selection),
        }
    }
}

/// A delayed decision that the event tap must schedule.
#[derive(Debug, Clone, Copy, PartialEq, Eq, Structural)]
pub enum TimerRequest {
    /// After `FN_SPACE_GRACE_MS`, call `fire_fn_tap_grace` with the token.
    FnTapGrace { token: u64 },
    /// After `FN_HOLD_CHEAT_SHEET_MS`, call `fire_fn_hold_cheat_sheet` with the token.
    FnHoldCheatSheet { token: u64 },
    /// After the double-tap threshold, call `complete_pending_capture_fn_tap`.
    CaptureFnTap { token: u64, released_at: u64 },
}

/// One of the two ways macOS reports the Fn key.
#[derive(Debug, Clone, Copy, PartialEq, Eq, Structural)]
pub enum FunctionSource {
    Modifier,
    Keycode,
}

/// A keyboard event as the event tap delivers it.
#[derive(Debug, Clone, Copy, PartialEq, Eq, Structural)]
pub enum KeyEvent {
    FlagsChanged { flags: u64 },
    KeyDown { keycode: i64, flags: u64 },
    KeyUp { keycode: i64 },
    TapDisabled,
    Other,
}

/// What the event tap does with the event.
#[derive(Debug, Clone, Copy, PartialEq, Eq, Structural)]
pub enum EventDisposition {
    PassThrough,
    Swallow,
    /// Re-enable the tap and pass the event through.
    ReenableTap,
}

/// The listener's state; times are milliseconds on a monotonic clock.
#[derive(Debug)]
pub struct ListenerState {
    pub threshold_ms: u64,
    pub runtime: KeyboardRuntimeSettings,
    pub meta_down: bool,
    pub control_down: bool,
    pub control_chord_used: bool,
    pub fn_down: bool,
    pub fn_modifier_down: bool,
    pub fn_keycode_down: bool,
    pub suppress_fn_modifier_until_up: bool,
    pub suppress_fn_keycode_until_up: bool,
    pub last_fn_modifier_release_at: Option<u64>,
    pub last_fn_keycode_release_at: Option<u64>,
    pub fn_space_combo: bool,
    pub fn_chord_used: bool,
    pub fn_space_down: bool,
    pub fn_recent_release: bool,
    pub voice_overlay_visible: bool,
    pub fn_hold_generation: u64,
    pub fn_hold_cheat_sheet_visible: bool,
    pub fn_hold_cheat_sheet_used: bool,
    pub fn_release_generation: u64,
    pub fn_recent_release_at: Option<u64>,
    pub last_fn_tap: Option<u64>,
    pub capture_action: Option<ShortcutAction>,
    pub capture_fn_down: bool,
    pub capture_fn_tap_at: Option<u64>,
    pub capture_fn_release_generation: u64,
    pub last_cmd_c: Option<u64>,
    /// Triggers to send, oldest first.
    pub outbox: Vec<KeyboardTrigger>,
    /// Timers to start, oldest first.
    pub timers: Vec<TimerRequest>,
}

/// The mathematical value of the listener state.
#[verifier::ext_equal]
pub ghost struct ListenerView {
    pub threshold_ms: u64,
    pub runtime: KeyboardRuntimeSettings,
    pub meta_down: bool,
    pub control_down: bool,
    pub control_chord_used: bool,
    pub fn_down: bool,
    pub fn_modifier_down: bool,
    pub fn_keycode_down: bool,
    pub suppress_fn_modifier_until_up: bool,
    pub suppress_fn_keycode_until_up: bool,
    pub last_fn_modifier_release_at: Option<u64>,
    pub last_fn_keycode_release_at: Option<u64>,
    pub fn_space_combo: bool,
    pub fn_chord_used: bool,
    pub fn_space_down: bool,
    pub fn_recent_release: bool,
    pub voice_overlay_visible: bool,
    pub fn_hold_generation: u64,
    pub fn_hold_cheat_sheet_visible: bool,
    pub fn_hold_cheat_sheet_used: bool,
    pub fn_release_generation: u64,
    pub fn_recent_release_at: Option<u64>,
    pub last_fn_tap: Option<u64>,
    pub capture_action: Option<ShortcutAction>,
    pub capture_fn_down: bool,
    pub capture_fn_tap_at: Option<u64>,
    pub capture_fn_release_generation: u64,
    pub last_cmd_c: Option<u64>,
    pub outbox: Seq<TriggerView>,
    pub timers: Seq<TimerRequest>,
}

/// The mathematical value of a trigger.
pub ghost enum TriggerView {
    CmdCopyDouble,
    FunctionTap,
    VoiceDictationStart,
    FunctionSpace,
    PolishSelection,
    ShortcutCheatSheetShow,
    ShortcutCheatSheetHide,
    VoiceModeCycle,
    Escape,
    ShortcutCaptured { action: ShortcutAction, shortcut: BindingView },
    ShortcutCaptureCancelled { action: ShortcutAction, reason: Seq<char> },
}

impl View for KeyboardTrigger {
    type V = TriggerView;

    open spec fn view(&self) -> TriggerView {
        match self {
            KeyboardTrigger::CmdCopyDouble => TriggerView::CmdCopyDouble,
            KeyboardTrigger::FunctionTap => TriggerView::FunctionTap,
            KeyboardTrigger::VoiceDictationStart => TriggerView::VoiceDictationStart,
            KeyboardTrigger::FunctionSpace => TriggerView::FunctionSpace,
            KeyboardTrigger::PolishSelection => TriggerView::PolishSelection,
            KeyboardTrigger::ShortcutCheatSheetShow => TriggerView::ShortcutCheatSheetShow,
            KeyboardTrigger::ShortcutCheatSheetHide => TriggerView::ShortcutCheatSheetHide,
            KeyboardTrigger::VoiceModeCycle => TriggerView::VoiceModeCycle,
            KeyboardTrigger::Escape => TriggerView::Escape,
            KeyboardTrigger::ShortcutCaptured { action, shortcut } => TriggerView::ShortcutCaptured {
                action: *action,
                shortcut: shortcut@,
            },
            KeyboardTrigger::ShortcutCaptureCancelled { action, reason } => {
                TriggerView::ShortcutCaptureCancelled { action: *action, reason: reason@ }
            },
        }
    }
}

#[verifier::opaque]
pub open spec fn tviews(ts: Seq<KeyboardTrigger>) -> Seq<TriggerView> {
    ts.map_values(|t: KeyboardTrigger| t@)
}

impl View for ListenerState {
    type V = ListenerView;

    open spec fn view(&self) -> ListenerView {
        ListenerView {
            threshold_ms: self.threshold_ms,
            runtime: self.runtime,
            meta_down: self.meta_down,
            control_down: self.control_down,
            control_chord_used: self.control_chord_used,
            fn_down: self.fn_down,
            fn_modifier_down: self.fn_modifier_down,
            fn_keycode_down: self.fn_keycode_down,
            suppress_fn_modifier_until_up: self.suppress_fn_modifier_until_up,
            suppress_fn_keycode_until_up: self.suppress_fn_keycode_until_up,
            last_fn_modifier_release_at: self.last_fn_modifier_release_at,
            last_fn_keycode_release_at: self.last_fn_keycode_release_at,
            fn_space_combo: self.fn_space_combo,
            fn_chord_used: self.fn_chord_used,
            fn_space_down: self.fn_space_down,
            fn_recent_release: self.fn_recent_release,
            voice_overlay_visible: self.voice_overlay_visible,
            fn_hold_generation: self.fn_hold_generation,
            fn_hold_cheat_sheet_visible: self.fn_hold_cheat_sheet_visible,
            fn_hold_cheat_sheet_used: self.fn_hold_cheat_sheet_used,
            fn_release_generation: self.fn_release_generation,
            fn_recent_release_at: self.fn_recent_release_at,
            last_fn_tap: self.last_fn_tap,
            capture_action: self.capture_action,
            capture_fn_down: self.capture_fn_down,
            capture_fn_tap_at: self.capture_fn_tap_at,
            capture_fn_release_generation: self.capture_fn_release_generation,
            last_cmd_c: self.last_cmd_c,
            outbox: tviews(self.outbox@),
            timers: self.timers@,
        }
    }
}

/// `g.wrapping_add(1)`.
pub open spec fn wrap_inc(g: u64) -> u64 {
    if g == u64::MAX {
        0
    } else {
        (g + 1) as u64
    }
}


/// `later` comes no earlier than `earlier` and at most `limit` after it.
pub open spec fn within(earlier: Option<u64>, later: u64, limit: u64) -> bool {
    match earlier {
        Some(e) => e <= later && later - e <= limit,
        None => false,
    }
}


/// The double-tap threshold the listener uses: the setting, at least 50 ms.
pub open spec fn effective_threshold(ms: u64) -> u64 {
    if ms < 50 {
        50
    } else {
        ms
    }
}

/// The listener as it starts: nothing held, nothing pending.
pub open spec fn initial_view(runtime: KeyboardRuntimeSettings) -> ListenerView {
    ListenerView {
        threshold_ms: effective_threshold(runtime.double_tap_threshold_ms),
        runtime,
        meta_down: false,
        control_down: false,
        control_chord_used: false,
        fn_down: false,
        fn_modifier_down: false,
        fn_keycode_down: false,
        suppress_fn_modifier_until_up: false,
        suppress_fn_keycode_until_up: false,
        last_fn_modifier_release_at: None,
        last_fn_keycode_release_at: None,
        fn_space_combo: false,
        fn_chord_used: false,
        fn_space_down: false,
        fn_recent_release: false,
        voice_overlay_visible: false,
        fn_hold_generation: 0,
        fn_hold_cheat_sheet_visible: false,
        fn_hold_cheat_sheet_used: false,
        fn_release_generation: 0,
        fn_recent_release_at: None,
        last_fn_tap: None,
        capture_action: None,
        capture_fn_down: false,
        capture_fn_tap_at: None,
        capture_fn_release_generation: 0,
        last_cmd_c: None,
        outbox: Seq::empty(),
        timers: Seq::empty(),
    }
}

/// The key name and label of a key code.
pub open spec fn key_name_text(keycode: i64) -> (Seq<char>, Seq<char>) {
    match keycode {
        0 => ("a"@, "A"@),
        1 => ("s"@, "S"@),
        2 => ("d"@, "D"@),
        3 => ("f"@, "F"@),
        4 => ("h"@, "H"@),
        5 => ("g"@, "G"@),
        6 => ("z"@, "Z"@),
        7 => ("x"@, "X"@),
        8 => ("c"@, "C"@),
        9 => ("v"@, "V"@),
        11 => ("b"@, "B"@),
        12 => ("q"@, "Q"@),
        13 => ("w"@, "W"@),
        14 => ("e"@, "E"@),
        15 => ("r"@, "R"@),
        16 => ("y"@, "Y"@),
        17 => ("t"@, "T"@),
        18 => ("1"@, "1"@),
        19 => ("2"@, "2"@),
        20 => ("3"@, "3"@),
        21 => ("4"@, "4"@),
        22 => ("6"@, "6"@),
        23 => ("5"@, "5"@),
        24 => ("equal"@, "="@),
        25 => ("9"@, "9"@),
        26 => ("7"@, "7"@),
        27 => ("minus"@, "-"@),
        28 => ("8"@, "8"@),
        29 => ("0"@, "0"@),
        30 => ("rightBracket"@, "]"@),
        31 => ("o"@, "O"@),
        32 => ("u"@, "U"@),
        33 => ("leftBracket"@, "["@),
        34 => ("i"@, "I"@),
        35 => ("p"@, "P"@),
        36 => ("return"@, "Return"@),
        37 => ("l"@, "L"@),
        38 => ("j"@, "J"@),
        39 => ("quote"@, "'"@),
        40 => ("k"@, "K"@),
        41 => ("semicolon"@, ";"@),
        42 => ("backslash"@, "\\"@),
        43 => ("comma"@, ","@),
        44 => ("slash"@, "/"@),
        45 => ("n"@, "N"@),
        46 => ("m"@, "M"@),
        47 => ("period"@, "."@),
        48 => ("tab"@, "Tab"@),
        49 => ("space"@, "Space"@),
        50 => ("grave"@, "`"@),
        51 => ("delete"@, "Delete"@),
        53 => ("escape"@, "Escape"@),
        65 => ("keypadDecimal"@, "Keypad ."@),
        67 => ("keypadMultiply"@, "Keypad *"@),
        69 => ("keypadPlus"@, "Keypad +"@),
        71 => ("clear"@, "Clear"@),
        75 => ("keypadDivide"@, "Keypad /"@),
        76 => ("keypadEnter"@, "Keypad Enter"@),
        78 => ("keypadMinus"@, "Keypad -"@),
        81 => ("keypadEquals"@, "Keypad ="@),
        82 => ("keypad0"@, "Keypad 0"@),
        83 => ("keypad1"@, "Keypad 1"@),
        84 => ("keypad2"@, "Keypad 2"@),
        85 => ("keypad3"@, "Keypad 3"@),
        86 => ("keypad4"@, "Keypad 4"@),
        87 => ("keypad5"@, "Keypad 5"@),
        88 => ("keypad6"@, "Keypad 6"@),
        89 => ("keypad7"@, "Keypad 7"@),
        91 => ("keypad8"@, "Keypad 8"@),
        92 => ("keypad9"@, "Keypad 9"@),
        96 => ("f5"@, "F5"@),
        97 => ("f6"@, "F6"@),
        98 => ("f7"@, "F7"@),
        99 => ("f3"@, "F3"@),
        100 => ("f8"@, "F8"@),
        101 => ("f9"@, "F9"@),
        103 => ("f11"@, "F11"@),
        105 => ("f13"@, "F13"@),
        106 => ("f16"@, "F16"@),
        107 => ("f14"@, "F14"@),
        109 => ("f10"@, "F10"@),
        111 => ("f12"@, "F12"@),
        113 => ("f15"@, "F15"@),
        114 => ("help"@, "Help"@),
        115 => ("home"@, "Home"@),
        116 => ("pageUp"@, "Page Up"@),
        117 => ("forwardDelete"@, "Forward Delete"@),
        118 => ("f4"@, "F4"@),
        119 => ("end"@, "End"@),
        120 => ("f2"@, "F2"@),
        121 => ("pageDown"@, "Page Down"@),
        122 => ("f1"@, "F1"@),
        123 => ("leftArrow"@, "Left"@),
        124 => ("rightArrow"@, "Right"@),
        125 => ("downArrow"@, "Down"@),
        126 => ("upArrow"@, "Up"@),
        _ => ("unknown"@, "Key"@),
    }
}

/// The key name and display label of a macOS key code.

/// The modifiers that the event flags hold.
pub open spec fn flags_modifiers(flags: u64) -> ShortcutModifiers {
    ShortcutModifiers {
        command: flags & FLAG_MASK_COMMAND != 0,
        option: flags & FLAG_MASK_ALTERNATE != 0,
        control: flags & FLAG_MASK_CONTROL != 0,
        shift: flags & FLAG_MASK_SHIFT != 0,
        function: flags & FLAG_MASK_SECONDARY_FN != 0,
    }
}


/// The label of an unknown key code: "Key " and the code.
pub open spec fn unknown_key_label(keycode: i64) -> Seq<char> {
    if keycode >= 0 {
        "Key "@ + crate::text::decimal(keycode as nat)
    } else {
        "Key -"@ + crate::text::decimal((0 - keycode) as nat)
    }
}

/// The binding a key event stands for (normalized as `from_parts` does).

/// Fn or Globe reported as an ordinary key.

/// The trigger of the configured shortcut that `shortcut` matches, checking
/// dictation, then ask, then polish.
pub open spec fn start_trigger(rt: KeyboardRuntimeSettings, shortcut: ShortcutBinding) -> Option<
    KeyboardTrigger,
> {
    start_trigger_parts(rt, shortcut.key_code, shortcut.key@, shortcut.modifiers)
}

/// A binding with these parts triggers on the same input as `b`.
pub open spec fn same_as_parts(
    key_code: Option<i64>,
    key: Seq<char>,
    m: ShortcutModifiers,
    b: ShortcutBinding,
) -> bool {
    key_code == b.key_code && key == b.key@ && m == b.modifiers
        && crate::settings::is_fn_key_parts(key_code, key) == crate::settings::is_fn_key_parts(
        b.key_code,
        b.key@,
    )
}

/// `start_trigger` for a binding given by its parts.
pub open spec fn start_trigger_parts(
    rt: KeyboardRuntimeSettings,
    key_code: Option<i64>,
    key: Seq<char>,
    m: ShortcutModifiers,
) -> Option<KeyboardTrigger> {
    if same_as_parts(key_code, key, m, rt.voice_dictation_shortcut) {
        Some(KeyboardTrigger::VoiceDictationStart)
    } else if same_as_parts(key_code, key, m, rt.voice_ask_shortcut) {
        Some(KeyboardTrigger::FunctionSpace)
    } else if same_as_parts(key_code, key, m, rt.polish_selection_shortcut) {
        Some(KeyboardTrigger::PolishSelection)
    } else {
        None
    }
}

/// The trigger configured for the Fn double tap, if any.
pub open spec fn double_tap_trigger(rt: KeyboardRuntimeSettings) -> Option<KeyboardTrigger> {
    start_trigger_parts(
        rt,
        None,
        "fn"@,
        ShortcutModifiers { function: true, ..crate::settings::no_modifiers() },
    )
}


/// The action a key picks on the visible cheat sheet.
pub open spec fn cheat_sheet_trigger(visible: bool, keycode: i64) -> Option<KeyboardTrigger> {
    if !visible {
        None
    } else if keycode == KEYCODE_D {
        Some(KeyboardTrigger::VoiceDictationStart)
    } else if keycode == KEYCODE_P {
        Some(KeyboardTrigger::PolishSelection)
    } else if keycode == KEYCODE_C {
        Some(KeyboardTrigger::CmdCopyDouble)
    } else {
        None
    }
}


/// Flags with a modifier other than Control.
pub open spec fn has_other_modifiers(flags: u64) -> bool {
    flags & (FLAG_MASK_SHIFT | FLAG_MASK_ALTERNATE | FLAG_MASK_COMMAND | FLAG_MASK_SECONDARY_FN) != 0
}


// --- State transitions, stated over the view -----------------------------

pub open spec fn send(v: ListenerView, t: TriggerView) -> ListenerView {
    ListenerView { outbox: v.outbox.push(t), ..v }
}

pub open spec fn send_opt(v: ListenerView, t: Option<KeyboardTrigger>) -> ListenerView {
    match t {
        Some(x) => send(v, x@),
        None => v,
    }
}

pub open spec fn invalidate_tap(v: ListenerView) -> ListenerView {
    ListenerView {
        fn_release_generation: wrap_inc(v.fn_release_generation),
        fn_recent_release: false,
        fn_recent_release_at: None,
        ..v
    }
}

pub open spec fn invalidate_hold(v: ListenerView) -> ListenerView {
    ListenerView { fn_hold_generation: wrap_inc(v.fn_hold_generation), ..v }
}

pub open spec fn hide_cheat(v: ListenerView) -> ListenerView {
    let w = invalidate_hold(v);
    if w.fn_hold_cheat_sheet_visible {
        send(
            ListenerView { fn_hold_cheat_sheet_visible: false, voice_overlay_visible: false, ..w },
            TriggerView::ShortcutCheatSheetHide,
        )
    } else {
        w
    }
}

pub open spec fn reset_tap_sequence(v: ListenerView) -> ListenerView {
    ListenerView { last_fn_tap: None, ..v }
}

pub open spec fn reset_sources(v: ListenerView) -> ListenerView {
    ListenerView {
        fn_down: false,
        fn_modifier_down: false,
        fn_keycode_down: false,
        suppress_fn_modifier_until_up: false,
        suppress_fn_keycode_until_up: false,
        last_fn_modifier_release_at: None,
        last_fn_keycode_release_at: None,
        ..v
    }
}

pub open spec fn cancel_capture_completion(v: ListenerView) -> ListenerView {
    ListenerView { capture_fn_release_generation: wrap_inc(v.capture_fn_release_generation), ..v }
}

pub open spec fn invalidate_capture_tap(v: ListenerView) -> ListenerView {
    ListenerView { capture_fn_tap_at: None, ..cancel_capture_completion(v) }
}

/// The decision on a confirmed Fn tap at `tapped_at`: a second tap within the
/// threshold fires the shortcut configured as Fn double tap, if any; otherwise
/// the tap is remembered and, if asked, a bare Fn tap is reported.
#[verifier::opaque]
pub open spec fn confirmed_tap(v: ListenerView, tapped_at: u64, emit: bool) -> (
    ListenerView,
    Option<KeyboardTrigger>,
) {
    let double = within(v.last_fn_tap, tapped_at, v.threshold_ms);
    let w = if double {
        ListenerView { last_fn_tap: None, ..v }
    } else {
        v
    };
    if double && double_tap_trigger(w.runtime) is Some {
        (w, double_tap_trigger(w.runtime))
    } else {
        (
            ListenerView { last_fn_tap: Some(tapped_at), ..w },
            if emit {
                Some(KeyboardTrigger::FunctionTap)
            } else {
                None
            },
        )
    }
}

/// The state with the pending Fn release cleared.
pub open spec fn clear_recent(v: ListenerView) -> ListenerView {
    ListenerView { fn_recent_release: false, fn_recent_release_at: None, ..v }
}

/// When the pending Fn tap happened: its recorded release, else now.
pub open spec fn pending_time(v: ListenerView, now: u64) -> u64 {
    match v.fn_recent_release_at {
        Some(t) => t,
        None => now,
    }
}

/// Confirming the pending Fn tap (released at its recorded time, else now).
pub open spec fn confirm_pending(v: ListenerView, emit: bool, now: u64) -> (
    ListenerView,
    Option<KeyboardTrigger>,
) {
    confirmed_tap(clear_recent(v), pending_time(v, now), emit)
}

/// The state with the held Fn flag set to `b`.
pub open spec fn with_fn_down(v: ListenerView, b: bool) -> ListenerView {
    ListenerView { fn_down: b, ..v }
}

/// The bare Fn key binding.
pub open spec fn fn_key_view() -> BindingView {
    BindingView { key_code: None, key: "fn"@, label: "Fn"@, modifiers: no_modifiers() }
}

/// The Fn double-tap binding.
pub open spec fn fn_double_tap_view() -> BindingView {
    BindingView {
        key_code: None,
        key: "fn"@,
        label: "Fn Fn"@,
        modifiers: ShortcutModifiers { function: true, ..no_modifiers() },
    }
}

/// The binding a key event stands for.
pub open spec fn key_event_view(keycode: i64, flags: u64) -> BindingView {
    let key = normalized_key(key_name_text(keycode).0);
    BindingView {
        key_code: Some(keycode),
        key,
        label: normalized_label(
            Some(keycode),
            key,
            if key_name_text(keycode).0 == "unknown"@ {
                unknown_key_label(keycode)
            } else {
                key_name_text(keycode).1
            },
            flags_modifiers(flags),
        ),
        modifiers: flags_modifiers(flags),
    }
}

pub open spec fn schedule_hold(v: ListenerView) -> ListenerView {
    if v.voice_overlay_visible {
        v
    } else {
        let g = wrap_inc(v.fn_hold_generation);
        ListenerView {
            fn_hold_generation: g,
            timers: v.timers.push(TimerRequest::FnHoldCheatSheet { token: g }),
            ..v
        }
    }
}

/// Fn went down (outside shortcut capture).
#[verifier::opaque]
pub open spec fn fn_pressed(v: ListenerView, now: u64) -> ListenerView {
    let a = if v.fn_recent_release {
        let p = confirm_pending(v, false, now);
        send_opt(p.0, p.1)
    } else {
        v
    };
    let b = ListenerView { fn_space_combo: false, fn_chord_used: false, fn_space_down: false, ..a };
    let c = invalidate_tap(b);
    schedule_hold(ListenerView { fn_hold_cheat_sheet_used: false, ..c })
}

/// Fn went up (outside shortcut capture).
#[verifier::opaque]
pub open spec fn fn_released(v: ListenerView, now: u64) -> ListenerView {
    let a = invalidate_hold(v);
    if a.fn_hold_cheat_sheet_visible || a.fn_hold_cheat_sheet_used {
        let b = hide_cheat(a);
        ListenerView {
            fn_hold_cheat_sheet_used: false,
            fn_space_combo: false,
            fn_chord_used: false,
            ..b
        }
    } else if a.fn_space_combo || a.fn_chord_used {
        ListenerView { fn_space_combo: false, fn_chord_used: false, ..a }
    } else {
        let g = wrap_inc(a.fn_release_generation);
        ListenerView {
            fn_release_generation: g,
            fn_recent_release: true,
            fn_recent_release_at: Some(now),
            timers: a.timers.push(TimerRequest::FnTapGrace { token: g }),
            ..a
        }
    }
}

/// The grace timer of an Fn release fired.
pub open spec fn tap_grace_fired(v: ListenerView, token: u64, now: u64) -> ListenerView {
    if v.fn_release_generation == token && v.fn_recent_release {
        let p = confirm_pending(v, true, now);
        send_opt(p.0, p.1)
    } else {
        v
    }
}

/// The hold timer of an Fn press fired.
pub open spec fn hold_fired(v: ListenerView, token: u64) -> ListenerView {
    if v.fn_hold_generation == token && v.fn_down && !v.fn_chord_used && !v.fn_space_combo
        && !v.voice_overlay_visible && v.capture_action is None {
        send(
            ListenerView {
                fn_hold_cheat_sheet_visible: true,
                fn_hold_cheat_sheet_used: true,
                voice_overlay_visible: true,
                ..v
            },
            TriggerView::ShortcutCheatSheetShow,
        )
    } else {
        v
    }
}

/// No capture running.
pub open spec fn clear_capture(v: ListenerView) -> ListenerView {
    ListenerView { capture_action: None, capture_fn_down: false, ..v }
}

/// No chord in progress; a held Fn counts as used.
pub open spec fn clear_chord(v: ListenerView) -> ListenerView {
    ListenerView { fn_space_down: false, fn_space_combo: false, fn_chord_used: v.fn_down, ..v }
}

/// What ending shortcut capture does to the rest of the state.
#[verifier::opaque]
pub open spec fn end_capture(v: ListenerView) -> ListenerView {
    let a = clear_capture(v);
    let b = invalidate_capture_tap(a);
    let c = clear_chord(b);
    reset_sources(reset_tap_sequence(invalidate_hold(invalidate_tap(c))))
}

/// Capture finished with `shortcut`.
pub open spec fn complete_capture_view(v: ListenerView, shortcut: BindingView) -> ListenerView {
    match v.capture_action {
        None => v,
        Some(action) => send(
            end_capture(v),
            TriggerView::ShortcutCaptured { action, shortcut },
        ),
    }
}

/// Capture given up, for `reason`.
pub open spec fn cancel_capture_view(v: ListenerView, reason: Seq<char>) -> ListenerView {
    match v.capture_action {
        None => v,
        Some(action) => send(
            end_capture(v),
            TriggerView::ShortcutCaptureCancelled { action, reason },
        ),
    }
}

/// The capture timer of a single Fn tap fired.
pub open spec fn capture_tap_fired(v: ListenerView, token: u64, released_at: u64) -> ListenerView {
    if v.capture_fn_release_generation == token && v.capture_fn_tap_at == Some(released_at)
        && v.capture_action is Some {
        complete_capture_view(v, fn_key_view())
    } else {
        v
    }
}

/// Fn went up during capture.
#[verifier::opaque]
pub open spec fn capture_fn_released(v: ListenerView, now: u64) -> ListenerView {
    if within(v.capture_fn_tap_at, now, v.threshold_ms) {
        complete_capture_view(invalidate_capture_tap(v), fn_double_tap_view())
    } else {
        let g = wrap_inc(v.capture_fn_release_generation);
        ListenerView {
            capture_fn_tap_at: Some(now),
            capture_fn_release_generation: g,
            timers: v.timers.push(TimerRequest::CaptureFnTap { token: g, released_at: now }),
            ..v
        }
    }
}

/// Fn changed during capture.
#[verifier::opaque]
pub open spec fn capture_fn_change(v: ListenerView, down: bool, now: u64) -> ListenerView {
    if down {
        invalidate_tap(cancel_capture_completion(ListenerView { capture_fn_down: true, ..v }))
    } else if v.capture_fn_down {
        capture_fn_released(ListenerView { capture_fn_down: false, ..v }, now)
    } else {
        v
    }
}

pub open spec fn capture_cancel_reason() -> Seq<char> {
    "キャンセルしました。"@
}

/// A key went down during capture: Escape cancels, any other key is captured.
pub open spec fn capture_key_down(v: ListenerView, keycode: i64, flags: u64) -> ListenerView {
    if keycode == KEYCODE_ESCAPE {
        cancel_capture_view(v, capture_cancel_reason())
    } else {
        complete_capture_view(invalidate_capture_tap(v), key_event_view(keycode, flags))
    }
}

pub open spec fn source_is_down(v: ListenerView, s: FunctionSource) -> bool {
    match s {
        FunctionSource::Modifier => v.fn_modifier_down,
        FunctionSource::Keycode => v.fn_keycode_down,
    }
}

pub open spec fn source_suppressed(v: ListenerView, s: FunctionSource) -> bool {
    match s {
        FunctionSource::Modifier => v.suppress_fn_modifier_until_up,
        FunctionSource::Keycode => v.suppress_fn_keycode_until_up,
    }
}

pub open spec fn with_source_down(v: ListenerView, s: FunctionSource, b: bool) -> ListenerView {
    match s {
        FunctionSource::Modifier => ListenerView { fn_modifier_down: b, ..v },
        FunctionSource::Keycode => ListenerView { fn_keycode_down: b, ..v },
    }
}

pub open spec fn with_suppressed(v: ListenerView, s: FunctionSource, b: bool) -> ListenerView {
    match s {
        FunctionSource::Modifier => ListenerView { suppress_fn_modifier_until_up: b, ..v },
        FunctionSource::Keycode => ListenerView { suppress_fn_keycode_until_up: b, ..v },
    }
}

pub open spec fn with_release_at(v: ListenerView, s: FunctionSource, t: u64) -> ListenerView {
    match s {
        FunctionSource::Modifier => ListenerView { last_fn_modifier_release_at: Some(t), ..v },
        FunctionSource::Keycode => ListenerView { last_fn_keycode_release_at: Some(t), ..v },
    }
}

/// The other source went up within the dedup window.
pub open spec fn other_recently_released(v: ListenerView, s: FunctionSource, now: u64) -> bool {
    let other = match s {
        FunctionSource::Modifier => v.last_fn_keycode_release_at,
        FunctionSource::Keycode => v.last_fn_modifier_release_at,
    };
    within(other, now, FN_SOURCE_DEDUP_MS)
}

/// After a source changed: if that changed whether Fn counts as held, the
/// press or release is handled (as capture input while capturing).
#[verifier::opaque]
pub open spec fn after_source(v: ListenerView, was_active: bool, now: u64) -> ListenerView {
    let active = v.fn_modifier_down || v.fn_keycode_down;
    if was_active == active {
        v
    } else {
        let w = with_fn_down(v, active);
        if w.capture_action is Some {
            capture_fn_change(w, active, now)
        } else if active {
            fn_pressed(w, now)
        } else {
            fn_released(w, now)
        }
    }
}

/// One of the two Fn sources went down or up. A press that follows the other
/// source's release within the dedup window is the same physical press and is
/// ignored until it goes up.
#[verifier::opaque]
pub open spec fn source_change(v: ListenerView, s: FunctionSource, down: bool, now: u64) -> ListenerView {
    let was = v.fn_down;
    if down {
        if source_is_down(v, s) {
            v
        } else if !was && other_recently_released(v, s, now) {
            with_suppressed(v, s, true)
        } else {
            after_source(with_source_down(v, s, true), was, now)
        }
    } else {
        if source_suppressed(v, s) {
            with_suppressed(v, s, false)
        } else if !source_is_down(v, s) {
            v
        } else {
            after_source(with_release_at(with_source_down(v, s, false), s, now), was, now)
        }
    }
}

pub open spec fn control_pressed(v: ListenerView, flags: u64) -> ListenerView {
    ListenerView { control_chord_used: has_other_modifiers(flags), ..v }
}

pub open spec fn control_released(v: ListenerView, flags: u64) -> ListenerView {
    let cycle = !v.control_chord_used && !has_other_modifiers(flags);
    let w = ListenerView { control_chord_used: false, ..v };
    if cycle {
        send(w, TriggerView::VoiceModeCycle)
    } else {
        w
    }
}

// --- Whole events and the public entry points -----------------------------

pub open spec fn with_meta(v: ListenerView, b: bool) -> ListenerView {
    ListenerView { meta_down: b, ..v }
}

pub open spec fn with_control_down(v: ListenerView, b: bool) -> ListenerView {
    ListenerView { control_down: b, ..v }
}

pub open spec fn with_control_chord(v: ListenerView, b: bool) -> ListenerView {
    ListenerView { control_chord_used: b, ..v }
}

pub open spec fn with_fn_chord(v: ListenerView, b: bool) -> ListenerView {
    ListenerView { fn_chord_used: b, ..v }
}

pub open spec fn with_fn_space_down(v: ListenerView, b: bool) -> ListenerView {
    ListenerView { fn_space_down: b, ..v }
}

pub open spec fn with_fn_space_combo(v: ListenerView, b: bool) -> ListenerView {
    ListenerView { fn_space_combo: b, ..v }
}

pub open spec fn with_last_cmd_c(v: ListenerView, t: Option<u64>) -> ListenerView {
    ListenerView { last_cmd_c: t, ..v }
}

pub open spec fn with_overlay(v: ListenerView, b: bool) -> ListenerView {
    ListenerView { voice_overlay_visible: b, ..v }
}

pub open spec fn control_flag(flags: u64) -> bool {
    flags & FLAG_MASK_CONTROL != 0
}

pub open spec fn command_flag(flags: u64) -> bool {
    flags & FLAG_MASK_COMMAND != 0
}

pub open spec fn fn_flag(flags: u64) -> bool {
    flags & FLAG_MASK_SECONDARY_FN != 0
}

/// Control went down or up, or another modifier joined a held Control.
pub open spec fn control_edge(v: ListenerView, flags: u64) -> ListenerView {
    let control = control_flag(flags);
    if control != v.control_down {
        let a = with_control_down(v, control);
        if a.capture_action is None {
            if control {
                control_pressed(a, flags)
            } else {
                control_released(a, flags)
            }
        } else {
            with_control_chord(a, false)
        }
    } else if v.control_down && has_other_modifiers(flags) {
        with_control_chord(v, true)
    } else {
        v
    }
}

/// The modifier flags changed: Command, Control, and Fn as a modifier.
pub open spec fn flags_changed(v: ListenerView, flags: u64, now: u64) -> ListenerView {
    let a = control_edge(with_meta(v, command_flag(flags)), flags);
    source_change(a, FunctionSource::Modifier, fn_flag(flags), now)
}

/// Fn held or just released: the shortcut that Fn+Space stands for, if any.
pub open spec fn fn_space_trigger(rt: KeyboardRuntimeSettings) -> Option<KeyboardTrigger> {
    start_trigger_parts(
        rt,
        Some(KEYCODE_SPACE),
        normalized_key("space"@),
        ShortcutModifiers { function: true, ..no_modifiers() },
    )
}

/// The shortcut that a key event stands for, if any.
pub open spec fn key_event_trigger(rt: KeyboardRuntimeSettings, keycode: i64, flags: u64) -> Option<
    KeyboardTrigger,
> {
    start_trigger_parts(
        rt,
        Some(keycode),
        normalized_key(key_name_text(keycode).0),
        flags_modifiers(flags),
    )
}

pub open spec fn hide_if_visible(v: ListenerView) -> ListenerView {
    if v.fn_hold_cheat_sheet_visible {
        hide_cheat(v)
    } else {
        v
    }
}

pub open spec fn mark_control_chord(v: ListenerView) -> ListenerView {
    if v.control_down {
        with_control_chord(v, true)
    } else {
        v
    }
}

/// Escape: any pending Fn tap and hold are dropped and Escape is reported.
pub open spec fn escape_step(v: ListenerView) -> ListenerView {
    send(reset_tap_sequence(invalidate_hold(invalidate_tap(v))), TriggerView::Escape)
}

/// The first half of Fn+Space: the cheat sheet, pending tap and hold go.
pub open spec fn space_chord_start(v: ListenerView) -> ListenerView {
    let a = hide_if_visible(v);
    let b = if a.fn_recent_release {
        invalidate_tap(a)
    } else {
        a
    };
    with_fn_chord(reset_tap_sequence(invalidate_hold(b)), true)
}

/// The second half of Fn+Space: the shortcut fires once per Space press.
pub open spec fn space_chord_finish(v: ListenerView) -> ListenerView {
    let a = if !v.fn_space_down {
        send_opt(v, fn_space_trigger(v.runtime))
    } else {
        v
    };
    let b = with_fn_space_down(a, true);
    if b.fn_down {
        with_fn_space_combo(b, true)
    } else {
        b
    }
}

/// A key pressed while Fn is held makes the hold a chord.
pub open spec fn fn_chord_step(v: ListenerView) -> ListenerView {
    if v.fn_down {
        reset_tap_sequence(invalidate_hold(with_fn_chord(hide_if_visible(v), true)))
    } else {
        v
    }
}

/// A second Command+C within the threshold of the first (a clock that went
/// back counts as no time at all).
pub open spec fn cmd_c_is_double(prev: u64, now: u64, threshold: u64) -> bool {
    now < prev || now - prev <= threshold
}

pub open spec fn cmd_c_step(v: ListenerView, keycode: i64, now: u64) -> ListenerView {
    if keycode == KEYCODE_C && v.meta_down {
        match v.last_cmd_c {
            Some(prev) => if cmd_c_is_double(prev, now, v.threshold_ms) {
                send(with_last_cmd_c(v, None), TriggerView::CmdCopyDouble)
            } else {
                with_last_cmd_c(v, Some(now))
            },
            None => with_last_cmd_c(v, Some(now)),
        }
    } else {
        v
    }
}

/// A key other than Fn went down outside shortcut capture.
pub open spec fn key_down_rest(v: ListenerView, keycode: i64, flags: u64, now: u64) -> (
    ListenerView,
    EventDisposition,
) {
    let a = mark_control_chord(v);
    match cheat_sheet_trigger(a.fn_hold_cheat_sheet_visible, keycode) {
        Some(t) => (send(hide_cheat(a), t@), EventDisposition::Swallow),
        None => if keycode == KEYCODE_ESCAPE && a.fn_hold_cheat_sheet_visible {
            (hide_cheat(a), EventDisposition::Swallow)
        } else if keycode == KEYCODE_ESCAPE {
            (
                escape_step(a),
                if a.voice_overlay_visible {
                    EventDisposition::Swallow
                } else {
                    EventDisposition::PassThrough
                },
            )
        } else if keycode == KEYCODE_SPACE && (a.fn_down || a.fn_recent_release) {
            (space_chord_finish(space_chord_start(a)), EventDisposition::Swallow)
        } else {
            let b = fn_chord_step(a);
            match key_event_trigger(b.runtime, keycode, flags) {
                Some(t) => (send(b, t@), EventDisposition::Swallow),
                None => (cmd_c_step(b, keycode, now), EventDisposition::PassThrough),
            }
        },
    }
}

pub open spec fn is_fn_keycode(keycode: i64) -> bool {
    keycode == KEYCODE_FUNCTION || keycode == KEYCODE_GLOBE_FUNCTION
}

/// A key went down.
pub open spec fn key_down(v: ListenerView, keycode: i64, flags: u64, now: u64) -> (
    ListenerView,
    EventDisposition,
) {
    if is_fn_keycode(keycode) {
        (source_change(v, FunctionSource::Keycode, true, now), EventDisposition::Swallow)
    } else if v.capture_action is Some {
        (capture_key_down(v, keycode, flags), EventDisposition::Swallow)
    } else {
        key_down_rest(v, keycode, flags, now)
    }
}

/// A key went up.
pub open spec fn key_up(v: ListenerView, keycode: i64, now: u64) -> (ListenerView, EventDisposition) {
    if is_fn_keycode(keycode) {
        (source_change(v, FunctionSource::Keycode, false, now), EventDisposition::Swallow)
    } else if keycode == KEYCODE_SPACE && v.fn_space_down {
        (with_fn_space_down(v, false), EventDisposition::Swallow)
    } else {
        (v, EventDisposition::PassThrough)
    }
}

/// What one event does to the listener, and what becomes of the event.
pub open spec fn event_step(v: ListenerView, event: KeyEvent, now: u64) -> (
    ListenerView,
    EventDisposition,
) {
    match event {
        KeyEvent::FlagsChanged { flags } => (flags_changed(v, flags, now), EventDisposition::PassThrough),
        KeyEvent::KeyDown { keycode, flags } => key_down(v, keycode, flags, now),
        KeyEvent::KeyUp { keycode } => key_up(v, keycode, now),
        KeyEvent::TapDisabled => (v, EventDisposition::ReenableTap),
        KeyEvent::Other => (v, EventDisposition::PassThrough),
    }
}

/// Pending taps, holds and captures dropped, the cheat sheet hidden and the
/// Fn sources forgotten.
pub open spec fn settle(v: ListenerView) -> ListenerView {
    reset_sources(
        reset_tap_sequence(hide_cheat(invalidate_hold(invalidate_capture_tap(invalidate_tap(v))))),
    )
}

pub open spec fn with_runtime(v: ListenerView, rt: KeyboardRuntimeSettings) -> ListenerView {
    ListenerView {
        threshold_ms: effective_threshold(rt.double_tap_threshold_ms),
        runtime: rt,
        ..v
    }
}

/// Capture of a shortcut for `action` begins.
pub open spec fn start_capture(v: ListenerView, action: ShortcutAction) -> ListenerView {
    ListenerView {
        capture_action: Some(action),
        capture_fn_down: false,
        fn_space_down: false,
        fn_space_combo: false,
        fn_chord_used: false,
        ..v
    }
}

} // verus!
