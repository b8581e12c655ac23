use enja::keyboard::{
    begin_shortcut_capture, cancel_capture, cancel_shortcut_capture, cheat_sheet_trigger_for_key,
    complete_capture, complete_pending_capture_fn_tap, confirm_pending_fn_tap, fire_fn_hold_cheat_sheet,
    fire_fn_tap_grace, handle_capture_fn_released, handle_control_pressed, handle_control_released,
    handle_event, handle_fn_released, handle_function_keycode_change,
    handle_function_source_change, is_function_keycode, set_voice_overlay_visible,
    shortcut_from_key_event, spawn_listener, start_trigger_for_shortcut, take_timers,
    take_triggers, trigger_for_confirmed_fn_tap, update_runtime_settings, EventDisposition,
    FunctionSource, KeyEvent, KeyboardRuntimeSettings, KeyboardTrigger, ListenerState,
    TimerRequest, FLAG_MASK_COMMAND, FLAG_MASK_CONTROL, FLAG_MASK_SECONDARY_FN, FLAG_MASK_SHIFT,
    KEYCODE_C, KEYCODE_D, KEYCODE_ESCAPE, KEYCODE_FUNCTION, KEYCODE_GLOBE_FUNCTION, KEYCODE_P,
    KEYCODE_SPACE,
};
use enja::settings::{ShortcutAction, ShortcutBinding};

fn runtime() -> KeyboardRuntimeSettings {
    KeyboardRuntimeSettings {
        double_tap_threshold_ms: 400,
        voice_dictation_shortcut: ShortcutBinding::fn_key(),
        voice_ask_shortcut: ShortcutBinding::fn_space(),
        polish_selection_shortcut: ShortcutBinding::ctrl_option_p(),
    }
}

fn state() -> ListenerState {
    spawn_listener(runtime())
}

#[test]
fn default_voice_shortcuts_resolve_to_distinct_triggers() {
    let state = state();

    assert!(matches!(
        start_trigger_for_shortcut(&state, &ShortcutBinding::fn_key()),
        Some(KeyboardTrigger::VoiceDictationStart)
    ));
    assert!(matches!(
        start_trigger_for_shortcut(&state, &ShortcutBinding::fn_space()),
        Some(KeyboardTrigger::FunctionSpace)
    ));
    assert!(matches!(
        start_trigger_for_shortcut(&state, &ShortcutBinding::ctrl_option_p()),
        Some(KeyboardTrigger::PolishSelection)
    ));
}

#[test]
fn custom_dictation_start_does_not_replace_fixed_fn_tap() {
    let mut state = state();
    let custom_shortcut = shortcut_from_key_event(KEYCODE_C, FLAG_MASK_SHIFT);
    state.runtime.voice_dictation_shortcut = custom_shortcut.clone();

    assert!(matches!(
        start_trigger_for_shortcut(&state, &custom_shortcut),
        Some(KeyboardTrigger::VoiceDictationStart)
    ));
    assert!(matches!(
        trigger_for_confirmed_fn_tap(&mut state, 1_000, true),
        Some(KeyboardTrigger::FunctionTap)
    ));
}

#[test]
fn fn_double_tap_resolves_to_configured_voice_shortcut() {
    let mut state = state();
    state.runtime.voice_dictation_shortcut = ShortcutBinding::fn_double_tap();

    let first_tap = 1_000;
    assert!(matches!(
        trigger_for_confirmed_fn_tap(&mut state, first_tap, true),
        Some(KeyboardTrigger::FunctionTap)
    ));

    let second_tap = first_tap + 120;
    assert!(matches!(
        trigger_for_confirmed_fn_tap(&mut state, second_tap, true),
        Some(KeyboardTrigger::VoiceDictationStart)
    ));
}

#[test]
fn fn_double_tap_does_not_match_after_threshold() {
    let mut state = state();
    state.runtime.voice_dictation_shortcut = ShortcutBinding::fn_double_tap();

    let first_tap = 1_000;
    assert!(matches!(
        trigger_for_confirmed_fn_tap(&mut state, first_tap, true),
        Some(KeyboardTrigger::FunctionTap)
    ));

    let second_tap = first_tap + 401;
    assert!(matches!(
        trigger_for_confirmed_fn_tap(&mut state, second_tap, true),
        Some(KeyboardTrigger::FunctionTap)
    ));
}

fn expect_captured(state: &mut ListenerState, action: ShortcutAction, expected: &ShortcutBinding) {
    let triggers = take_triggers(state);
    match triggers.first().expect("trigger") {
        KeyboardTrigger::ShortcutCaptured { action: got, shortcut } => {
            assert_eq!(*got, action);
            assert!(shortcut.is_same_shortcut(expected));
        }
        trigger => panic!("unexpected trigger: {trigger:?}"),
    }
}

#[test]
fn shortcut_capture_emits_normalized_binding() {
    let mut state = state();
    state.capture_action = Some(ShortcutAction::VoiceAsk);

    complete_capture(&mut state, shortcut_from_key_event(KEYCODE_SPACE, FLAG_MASK_SECONDARY_FN));

    expect_captured(&mut state, ShortcutAction::VoiceAsk, &ShortcutBinding::fn_space());
}

#[test]
fn shortcut_capture_treats_globe_function_keycode_as_fn_tap() {
    let mut state = state();
    state.capture_action = Some(ShortcutAction::VoiceDictation);

    assert!(is_function_keycode(KEYCODE_GLOBE_FUNCTION));
    handle_function_keycode_change(&mut state, true, 1_000);

    assert!(state.outbox.is_empty());
    assert!(state.capture_fn_down);

    handle_function_keycode_change(&mut state, false, 1_010);
    assert!(state.outbox.is_empty());

    let released_at = state.capture_fn_tap_at.expect("pending Fn tap");
    let token = state.capture_fn_release_generation;
    complete_pending_capture_fn_tap(&mut state, token, released_at);

    expect_captured(&mut state, ShortcutAction::VoiceDictation, &ShortcutBinding::fn_key());
}

#[test]
fn shortcut_capture_treats_globe_function_keycode_double_tap_as_fn_double_tap() {
    let mut state = state();
    state.capture_action = Some(ShortcutAction::VoiceDictation);

    handle_function_keycode_change(&mut state, true, 1_000);
    handle_function_keycode_change(&mut state, false, 1_010);
    handle_function_keycode_change(&mut state, true, 1_020);
    handle_function_keycode_change(&mut state, false, 1_030);

    expect_captured(&mut state, ShortcutAction::VoiceDictation, &ShortcutBinding::fn_double_tap());
}

#[test]
fn shortcut_capture_deduplicates_keycode_then_modifier_for_one_fn_tap() {
    let mut state = state();
    state.capture_action = Some(ShortcutAction::VoiceDictation);
    let start = 1_000;

    handle_function_source_change(&mut state, FunctionSource::Keycode, true, start);
    handle_function_source_change(&mut state, FunctionSource::Keycode, false, start + 8);
    handle_function_source_change(&mut state, FunctionSource::Modifier, true, start + 16);
    handle_function_source_change(&mut state, FunctionSource::Modifier, false, start + 24);

    assert!(state.outbox.is_empty());
    let released_at = state.capture_fn_tap_at.expect("pending Fn tap");
    let token = state.capture_fn_release_generation;
    complete_pending_capture_fn_tap(&mut state, token, released_at);

    expect_captured(&mut state, ShortcutAction::VoiceDictation, &ShortcutBinding::fn_key());
}

#[test]
fn shortcut_capture_deduplicates_modifier_then_keycode_for_one_fn_tap() {
    let mut state = state();
    state.capture_action = Some(ShortcutAction::VoiceDictation);
    let start = 1_000;

    handle_function_source_change(&mut state, FunctionSource::Modifier, true, start);
    handle_function_source_change(&mut state, FunctionSource::Modifier, false, start + 8);
    handle_function_source_change(&mut state, FunctionSource::Keycode, true, start + 16);
    handle_function_source_change(&mut state, FunctionSource::Keycode, false, start + 24);

    assert!(state.outbox.is_empty());
    let released_at = state.capture_fn_tap_at.expect("pending Fn tap");
    let token = state.capture_fn_release_generation;
    complete_pending_capture_fn_tap(&mut state, token, released_at);

    expect_captured(&mut state, ShortcutAction::VoiceDictation, &ShortcutBinding::fn_key());
}

#[test]
fn duplicate_fn_sources_emit_single_fixed_fn_tap() {
    let mut state = state();
    state.runtime.voice_dictation_shortcut = ShortcutBinding::fn_double_tap();
    let start = 1_000;

    handle_function_source_change(&mut state, FunctionSource::Keycode, true, start);
    handle_function_source_change(&mut state, FunctionSource::Keycode, false, start + 8);
    handle_function_source_change(&mut state, FunctionSource::Modifier, true, start + 16);
    handle_function_source_change(&mut state, FunctionSource::Modifier, false, start + 24);

    assert!(matches!(
        confirm_pending_fn_tap(&mut state, true, start + 30),
        Some(KeyboardTrigger::FunctionTap)
    ));
    assert!(state.outbox.is_empty());
}

#[test]
fn cheat_sheet_layer_keys_resolve_to_actions() {
    let mut state = state();
    state.fn_hold_cheat_sheet_visible = true;

    assert!(matches!(
        cheat_sheet_trigger_for_key(&state, KEYCODE_D),
        Some(KeyboardTrigger::VoiceDictationStart)
    ));
    assert!(matches!(
        cheat_sheet_trigger_for_key(&state, KEYCODE_P),
        Some(KeyboardTrigger::PolishSelection)
    ));
    assert!(matches!(
        cheat_sheet_trigger_for_key(&state, KEYCODE_C),
        Some(KeyboardTrigger::CmdCopyDouble)
    ));
}

#[test]
fn fn_release_after_cheat_sheet_does_not_emit_function_tap() {
    let mut state = state();
    state.fn_down = true;
    state.fn_hold_cheat_sheet_visible = true;
    state.fn_hold_cheat_sheet_used = true;

    handle_fn_released(&mut state, 1_000);

    let triggers = take_triggers(&mut state);
    assert_eq!(triggers, vec![KeyboardTrigger::ShortcutCheatSheetHide]);
}

#[test]
fn shortcut_capture_emits_fn_double_tap() {
    let mut state = state();
    state.capture_action = Some(ShortcutAction::VoiceDictation);
    state.capture_fn_tap_at = Some(1_000);

    handle_capture_fn_released(&mut state, 1_000);

    expect_captured(&mut state, ShortcutAction::VoiceDictation, &ShortcutBinding::fn_double_tap());
}

#[test]
fn shortcut_capture_emits_fn_single_tap_after_threshold() {
    let mut state = state();
    state.capture_action = Some(ShortcutAction::VoiceDictation);
    let released_at = 1_000;
    state.capture_fn_tap_at = Some(released_at);
    state.capture_fn_release_generation = 1;

    complete_pending_capture_fn_tap(&mut state, 1, released_at);

    expect_captured(&mut state, ShortcutAction::VoiceDictation, &ShortcutBinding::fn_key());
}

#[test]
fn shortcut_capture_cancel_emits_reason() {
    let mut state = state();
    state.capture_action = Some(ShortcutAction::VoiceDictation);

    cancel_capture(&mut state, "キャンセルしました。".to_string());

    match take_triggers(&mut state).first().expect("trigger") {
        KeyboardTrigger::ShortcutCaptureCancelled { action, reason } => {
            assert_eq!(*action, ShortcutAction::VoiceDictation);
            assert_eq!(reason, "キャンセルしました。");
        }
        trigger => panic!("unexpected trigger: {trigger:?}"),
    }
}

#[test]
fn control_tap_emits_voice_mode_cycle() {
    let mut state = state();

    handle_control_pressed(&mut state, FLAG_MASK_CONTROL);
    handle_control_released(&mut state, 0);

    assert_eq!(take_triggers(&mut state), vec![KeyboardTrigger::VoiceModeCycle]);
}

#[test]
fn control_chord_does_not_emit_voice_mode_cycle() {
    let mut state = state();

    handle_control_pressed(&mut state, FLAG_MASK_CONTROL);
    state.control_chord_used = true;
    handle_control_released(&mut state, 0);

    assert!(take_triggers(&mut state).is_empty());
}

// --- Whole events -----------------------------------------------------------

#[test]
fn fn_tap_reports_function_tap_after_grace_timer() {
    let mut state = state();
    assert_eq!(
        handle_event(&mut state, KeyEvent::FlagsChanged { flags: FLAG_MASK_SECONDARY_FN }, 1_000),
        EventDisposition::PassThrough
    );
    handle_event(&mut state, KeyEvent::FlagsChanged { flags: 0 }, 1_050);
    let timers = take_timers(&mut state);
    let token = timers
        .iter()
        .find_map(|t| match t {
            TimerRequest::FnTapGrace { token } => Some(*token),
            _ => None,
        })
        .expect("grace timer");
    fire_fn_tap_grace(&mut state, token, 1_130);
    assert_eq!(take_triggers(&mut state), vec![KeyboardTrigger::FunctionTap]);
}

#[test]
fn stale_grace_timer_is_ignored() {
    let mut state = state();
    handle_event(&mut state, KeyEvent::FlagsChanged { flags: FLAG_MASK_SECONDARY_FN }, 1_000);
    handle_event(&mut state, KeyEvent::FlagsChanged { flags: 0 }, 1_050);
    let token = state.fn_release_generation;
    // Fn goes down again inside the grace window: the pending tap is dropped.
    handle_event(&mut state, KeyEvent::FlagsChanged { flags: FLAG_MASK_SECONDARY_FN }, 1_060);
    fire_fn_tap_grace(&mut state, token, 1_130);
    assert!(!take_triggers(&mut state).contains(&KeyboardTrigger::FunctionTap));
}

#[test]
fn fn_space_chord_reports_ask_and_swallows_space() {
    let mut state = state();
    handle_event(&mut state, KeyEvent::FlagsChanged { flags: FLAG_MASK_SECONDARY_FN }, 1_000);
    assert_eq!(
        handle_event(
            &mut state,
            KeyEvent::KeyDown { keycode: KEYCODE_SPACE, flags: FLAG_MASK_SECONDARY_FN },
            1_010
        ),
        EventDisposition::Swallow
    );
    assert_eq!(
        handle_event(&mut state, KeyEvent::KeyUp { keycode: KEYCODE_SPACE }, 1_020),
        EventDisposition::Swallow
    );
    handle_event(&mut state, KeyEvent::FlagsChanged { flags: 0 }, 1_030);
    assert_eq!(take_triggers(&mut state), vec![KeyboardTrigger::FunctionSpace]);
    assert!(state.fn_release_generation > 0);
    assert!(!state.fn_recent_release);
}

#[test]
fn escape_is_reported_and_swallowed_only_with_overlay() {
    let mut state = state();
    assert_eq!(
        handle_event(&mut state, KeyEvent::KeyDown { keycode: KEYCODE_ESCAPE, flags: 0 }, 1_000),
        EventDisposition::PassThrough
    );
    set_voice_overlay_visible(&mut state, true);
    assert_eq!(
        handle_event(&mut state, KeyEvent::KeyDown { keycode: KEYCODE_ESCAPE, flags: 0 }, 1_010),
        EventDisposition::Swallow
    );
    assert_eq!(
        take_triggers(&mut state),
        vec![KeyboardTrigger::Escape, KeyboardTrigger::Escape]
    );
}

#[test]
fn command_c_twice_reports_double_copy() {
    let mut state = state();
    handle_event(&mut state, KeyEvent::FlagsChanged { flags: FLAG_MASK_COMMAND }, 1_000);
    let down = KeyEvent::KeyDown { keycode: KEYCODE_C, flags: FLAG_MASK_COMMAND };
    assert_eq!(handle_event(&mut state, down, 1_010), EventDisposition::PassThrough);
    assert!(take_triggers(&mut state).is_empty());
    handle_event(&mut state, down, 1_200);
    assert_eq!(take_triggers(&mut state), vec![KeyboardTrigger::CmdCopyDouble]);
    handle_event(&mut state, down, 2_000);
    assert!(take_triggers(&mut state).is_empty());
}

#[test]
fn fn_hold_shows_cheat_sheet_when_timer_fires() {
    let mut state = state();
    handle_event(&mut state, KeyEvent::FlagsChanged { flags: FLAG_MASK_SECONDARY_FN }, 1_000);
    let token = take_timers(&mut state)
        .iter()
        .find_map(|t| match t {
            TimerRequest::FnHoldCheatSheet { token } => Some(*token),
            _ => None,
        })
        .expect("hold timer");
    fire_fn_hold_cheat_sheet(&mut state, token);
    assert_eq!(take_triggers(&mut state), vec![KeyboardTrigger::ShortcutCheatSheetShow]);
    handle_event(&mut state, KeyEvent::FlagsChanged { flags: 0 }, 1_600);
    assert_eq!(take_triggers(&mut state), vec![KeyboardTrigger::ShortcutCheatSheetHide]);
}

#[test]
fn globe_key_is_swallowed_and_counts_as_fn() {
    let mut state = state();
    assert_eq!(
        handle_event(&mut state, KeyEvent::KeyDown { keycode: KEYCODE_FUNCTION, flags: 0 }, 1_000),
        EventDisposition::Swallow
    );
    assert!(state.fn_down);
    assert_eq!(
        handle_event(&mut state, KeyEvent::KeyUp { keycode: KEYCODE_FUNCTION }, 1_020),
        EventDisposition::Swallow
    );
    assert!(!state.fn_down);
}

#[test]
fn capture_takes_next_key_and_escape_cancels() {
    let mut listener = Some(state());
    assert_eq!(begin_shortcut_capture(&mut listener, ShortcutAction::VoiceAsk), Ok(()));
    let state = listener.as_mut().expect("listener");
    assert_eq!(
        handle_event(state, KeyEvent::KeyDown { keycode: KEYCODE_P, flags: FLAG_MASK_CONTROL }, 1_000),
        EventDisposition::Swallow
    );
    match take_triggers(state).first().expect("trigger") {
        KeyboardTrigger::ShortcutCaptured { action, shortcut } => {
            assert_eq!(*action, ShortcutAction::VoiceAsk);
            assert_eq!(shortcut.key_code, Some(KEYCODE_P));
        }
        trigger => panic!("unexpected trigger: {trigger:?}"),
    }
    assert!(state.capture_action.is_none());

    assert_eq!(begin_shortcut_capture(&mut listener, ShortcutAction::VoiceDictation), Ok(()));
    let state = listener.as_mut().expect("listener");
    handle_event(state, KeyEvent::KeyDown { keycode: KEYCODE_ESCAPE, flags: 0 }, 1_100);
    assert!(matches!(
        take_triggers(state).first(),
        Some(KeyboardTrigger::ShortcutCaptureCancelled { .. })
    ));

    assert_eq!(begin_shortcut_capture(&mut listener, ShortcutAction::VoiceDictation), Ok(()));
    let state = listener.as_mut().expect("listener");
    cancel_shortcut_capture(state);
    assert!(state.capture_action.is_none());
    assert!(take_triggers(state).is_empty());
}

#[test]
fn capture_without_listener_fails() {
    let mut listener: Option<ListenerState> = None;
    assert_eq!(
        begin_shortcut_capture(&mut listener, ShortcutAction::VoiceAsk),
        Err("キーボードリスナーが起動していません。".to_string())
    );
    assert!(listener.is_none());
}

#[test]
fn update_runtime_settings_clamps_threshold() {
    let mut state = state();
    let mut rt = runtime();
    rt.double_tap_threshold_ms = 10;
    update_runtime_settings(&mut state, rt);
    assert_eq!(state.threshold_ms, 50);
    assert!(!state.fn_down);
}

#[test]
fn tap_disabled_asks_to_reenable() {
    let mut state = state();
    assert_eq!(handle_event(&mut state, KeyEvent::TapDisabled, 1_000), EventDisposition::ReenableTap);
    assert_eq!(handle_event(&mut state, KeyEvent::Other, 1_000), EventDisposition::PassThrough);
}

#[test]
fn two_quick_command_c_presses_ask_for_translation() {
    let mut state = state();
    handle_event(&mut state, KeyEvent::FlagsChanged { flags: FLAG_MASK_COMMAND }, 900);
    let first = handle_event(&mut state, KeyEvent::KeyDown { keycode: KEYCODE_C, flags: FLAG_MASK_COMMAND }, 1_000);
    assert_eq!(first, EventDisposition::PassThrough);
    assert!(take_triggers(&mut state).is_empty());
    handle_event(&mut state, KeyEvent::KeyDown { keycode: KEYCODE_C, flags: FLAG_MASK_COMMAND }, 1_400);
    assert_eq!(take_triggers(&mut state), vec![KeyboardTrigger::CmdCopyDouble]);

    handle_event(&mut state, KeyEvent::KeyDown { keycode: KEYCODE_C, flags: FLAG_MASK_COMMAND }, 3_000);
    handle_event(&mut state, KeyEvent::KeyDown { keycode: KEYCODE_C, flags: FLAG_MASK_COMMAND }, 3_401);
    assert!(take_triggers(&mut state).is_empty());
}

#[test]
fn command_c_twice_counts_while_fn_is_held() {
    let mut state = state();
    handle_event(
        &mut state,
        KeyEvent::FlagsChanged { flags: FLAG_MASK_COMMAND | FLAG_MASK_SECONDARY_FN },
        900,
    );
    assert!(state.fn_down);
    let down = KeyEvent::KeyDown { keycode: KEYCODE_C, flags: FLAG_MASK_COMMAND | FLAG_MASK_SECONDARY_FN };
    assert_eq!(handle_event(&mut state, down, 1_000), EventDisposition::PassThrough);
    assert!(take_triggers(&mut state).is_empty());
    assert_eq!(handle_event(&mut state, down, 1_200), EventDisposition::PassThrough);
    assert_eq!(take_triggers(&mut state), vec![KeyboardTrigger::CmdCopyDouble]);
    assert_eq!(handle_event(&mut state, down, 1_300), EventDisposition::PassThrough);
    assert!(take_triggers(&mut state).is_empty());
}
