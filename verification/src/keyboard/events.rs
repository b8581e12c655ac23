//! Whole key events, and the entry points that the app calls.
use vstd::prelude::*;

use super::{
    cancel_capture_view, capture_key_down, cheat_sheet_trigger, cheat_sheet_trigger_for_key,
    clear_capture, clear_capture_exec, cmd_c_is_double, cmd_c_step, command_flag, control_edge,
    control_flag, control_has_other_modifiers, control_pressed, control_released, escape_step,
    event_step, flags_changed, fn_chord_step, fn_flag, fn_space_trigger, handle_capture_key_down,
    handle_control_pressed, handle_control_released, handle_function_keycode_change,
    handle_function_modifier_change, hide_cheat, hide_fn_hold_cheat_sheet, hide_if_visible,
    initial_view, invalidate_capture_tap, invalidate_hold, invalidate_pending_capture_fn_tap,
    invalidate_pending_fn_hold_cheat_sheet, invalidate_pending_fn_tap, invalidate_tap,
    is_fn_keycode, is_function_keycode, key_down, key_down_rest, key_event_trigger, key_up,
    mark_control_chord, push_trigger, reset_fn_tap_sequence, reset_function_sources, reset_sources,
    reset_tap_sequence, send, send_opt, send_voice_shortcut_if_matched, settle, shortcut_from_key_event,
    source_change, space_chord_finish, space_chord_start, start_capture, start_trigger,
    start_trigger_for_shortcut, with_control_chord, with_control_down, with_fn_chord,
    with_fn_space_combo, with_fn_space_down, with_last_cmd_c, with_meta, with_overlay, with_runtime,
    effective_threshold, EventDisposition, FunctionSource, KeyEvent, KeyboardRuntimeSettings,
    KeyboardTrigger, ListenerState, ListenerView, TimerRequest, TriggerView, FLAG_MASK_COMMAND,
    FLAG_MASK_CONTROL, FLAG_MASK_SECONDARY_FN, KEYCODE_C, KEYCODE_ESCAPE, KEYCODE_SPACE,
};
use crate::settings::{ShortcutAction, ShortcutBinding};

verus! {

#[verifier::spinoff_prover]
pub fn set_meta(state: &mut ListenerState, b: bool)
    ensures
        final(state)@ === with_meta(old(state)@, b),
{
    state.meta_down = b;
}

#[verifier::spinoff_prover]
pub fn set_control_down(state: &mut ListenerState, b: bool)
    ensures
        final(state)@ === with_control_down(old(state)@, b),
{
    state.control_down = b;
}

#[verifier::spinoff_prover]
pub fn set_control_chord(state: &mut ListenerState, b: bool)
    ensures
        final(state)@ === with_control_chord(old(state)@, b),
{
    state.control_chord_used = b;
}

#[verifier::spinoff_prover]
pub fn set_fn_chord(state: &mut ListenerState, b: bool)
    ensures
        final(state)@ === with_fn_chord(old(state)@, b),
{
    state.fn_chord_used = b;
}

#[verifier::spinoff_prover]
pub fn set_fn_space_down(state: &mut ListenerState, b: bool)
    ensures
        final(state)@ === with_fn_space_down(old(state)@, b),
{
    state.fn_space_down = b;
}

#[verifier::spinoff_prover]
pub fn set_fn_space_combo(state: &mut ListenerState, b: bool)
    ensures
        final(state)@ === with_fn_space_combo(old(state)@, b),
{
    state.fn_space_combo = b;
}

#[verifier::spinoff_prover]
pub fn set_last_cmd_c(state: &mut ListenerState, t: Option<u64>)
    ensures
        final(state)@ === with_last_cmd_c(old(state)@, t),
{
    state.last_cmd_c = t;
}

/// Control went down or up, or another modifier joined a held Control.
#[verifier::spinoff_prover]
pub fn handle_control_edge(state: &mut ListenerState, flags: u64)
    ensures
        final(state)@ === control_edge(old(state)@, flags),
{
    let control = flags & FLAG_MASK_CONTROL != 0;
    if control != state.control_down {
        set_control_down(state, control);
        if state.capture_action.is_none() {
            if control {
                handle_control_pressed(state, flags);
            } else {
                handle_control_released(state, flags);
            }
        } else {
            set_control_chord(state, false);
        }
    } else if state.control_down && control_has_other_modifiers(flags) {
        set_control_chord(state, true);
    }
}

/// The modifier flags changed.
#[verifier::spinoff_prover]
pub fn handle_flags_changed(state: &mut ListenerState, flags: u64, now: u64)
    ensures
        final(state)@ === flags_changed(old(state)@, flags, now),
{
    set_meta(state, flags & FLAG_MASK_COMMAND != 0);
    handle_control_edge(state, flags);
    handle_function_modifier_change(state, flags & FLAG_MASK_SECONDARY_FN != 0, now);
}

#[verifier::spinoff_prover]
pub fn hide_cheat_sheet_if_visible(state: &mut ListenerState)
    ensures
        final(state)@ === hide_if_visible(old(state)@),
{
    if state.fn_hold_cheat_sheet_visible {
        hide_fn_hold_cheat_sheet(state);
    }
}

#[verifier::spinoff_prover]
pub fn mark_control_chord_exec(state: &mut ListenerState)
    ensures
        final(state)@ === mark_control_chord(old(state)@),
{
    if state.control_down {
        set_control_chord(state, true);
    }
}

/// Escape drops any pending Fn tap and hold and is reported.
#[verifier::spinoff_prover]
pub fn handle_escape(state: &mut ListenerState)
    ensures
        final(state)@ === escape_step(old(state)@),
{
    invalidate_pending_fn_tap(state);
    invalidate_pending_fn_hold_cheat_sheet(state);
    reset_fn_tap_sequence(state);
    push_trigger(state, KeyboardTrigger::Escape);
}

#[verifier::spinoff_prover]
pub fn begin_space_chord(state: &mut ListenerState)
    ensures
        final(state)@ === space_chord_start(old(state)@),
{
    hide_cheat_sheet_if_visible(state);
    if state.fn_recent_release {
        invalidate_pending_fn_tap(state);
    }
    invalidate_pending_fn_hold_cheat_sheet(state);
    reset_fn_tap_sequence(state);
    set_fn_chord(state, true);
}

#[verifier::spinoff_prover]
pub fn finish_space_chord(state: &mut ListenerState)
    ensures
        final(state)@ === space_chord_finish(old(state)@),
{
    if !state.fn_space_down {
        let shortcut = ShortcutBinding::fn_space();
        send_voice_shortcut_if_matched(state, &shortcut);
    }
    set_fn_space_down(state, true);
    if state.fn_down {
        set_fn_space_combo(state, true);
    }
}

#[verifier::spinoff_prover]
pub fn handle_fn_chord(state: &mut ListenerState)
    ensures
        final(state)@ === fn_chord_step(old(state)@),
{
    if state.fn_down {
        hide_cheat_sheet_if_visible(state);
        set_fn_chord(state, true);
        invalidate_pending_fn_hold_cheat_sheet(state);
        reset_fn_tap_sequence(state);
    }
}

/// Command+C twice within the threshold reports a double copy.
#[verifier::spinoff_prover]
pub fn handle_cmd_c(state: &mut ListenerState, keycode: i64, now: u64)
    ensures
        final(state)@ === cmd_c_step(old(state)@, keycode, now),
{
    if keycode == KEYCODE_C && state.meta_down {
        match state.last_cmd_c {
            Some(prev) => {
                if now < prev || now - prev <= state.threshold_ms {
                    set_last_cmd_c(state, None);
                    push_trigger(state, KeyboardTrigger::CmdCopyDouble);
                } else {
                    set_last_cmd_c(state, Some(now));
                }
            },
            None => {
                set_last_cmd_c(state, Some(now));
            },
        }
    }
}

/// The chord and shortcut part of a key press: Fn held makes it a chord, then
/// a configured shortcut fires, else Command+C is watched.
#[verifier::spinoff_prover]
pub fn handle_key_shortcut(state: &mut ListenerState, keycode: i64, flags: u64, now: u64) -> (r:
    EventDisposition)
    ensures
        final(state)@ === (match key_event_trigger(fn_chord_step(old(state)@).runtime, keycode, flags) {
            Some(t) => send(fn_chord_step(old(state)@), t@),
            None => cmd_c_step(fn_chord_step(old(state)@), keycode, now),
        }),
        r == (match key_event_trigger(fn_chord_step(old(state)@).runtime, keycode, flags) {
            Some(t) => EventDisposition::Swallow,
            None => EventDisposition::PassThrough,
        }),
{
    handle_fn_chord(state);
    let shortcut = shortcut_from_key_event(keycode, flags);
    match start_trigger_for_shortcut(state, &shortcut) {
        Some(t) => {
            push_trigger(state, t);
            EventDisposition::Swallow
        },
        None => {
            handle_cmd_c(state, keycode, now);
            EventDisposition::PassThrough
        },
    }
}

/// A key other than Fn went down outside shortcut capture.
#[verifier::spinoff_prover]
#[verifier::rlimit(40)]
pub fn handle_key_down_rest(state: &mut ListenerState, keycode: i64, flags: u64, now: u64) -> (r:
    EventDisposition)
    ensures
        final(state)@ === key_down_rest(old(state)@, keycode, flags, now).0,
        r == key_down_rest(old(state)@, keycode, flags, now).1,
{
    mark_control_chord_exec(state);
    match cheat_sheet_trigger_for_key(state, keycode) {
        Some(t) => {
            hide_fn_hold_cheat_sheet(state);
            push_trigger(state, t);
            return EventDisposition::Swallow;
        },
        None => {},
    }
    if keycode == KEYCODE_ESCAPE && state.fn_hold_cheat_sheet_visible {
        hide_fn_hold_cheat_sheet(state);
        return EventDisposition::Swallow;
    }
    if keycode == KEYCODE_ESCAPE {
        let swallow = state.voice_overlay_visible;
        handle_escape(state);
        return if swallow {
            EventDisposition::Swallow
        } else {
            EventDisposition::PassThrough
        };
    }
    if keycode == KEYCODE_SPACE && (state.fn_down || state.fn_recent_release) {
        begin_space_chord(state);
        finish_space_chord(state);
        return EventDisposition::Swallow;
    }
    handle_key_shortcut(state, keycode, flags, now)
}

/// A key went down.
#[verifier::spinoff_prover]
pub fn handle_key_down(state: &mut ListenerState, keycode: i64, flags: u64, now: u64) -> (r:
    EventDisposition)
    ensures
        final(state)@ === key_down(old(state)@, keycode, flags, now).0,
        r == key_down(old(state)@, keycode, flags, now).1,
{
    if is_function_keycode(keycode) {
        handle_function_keycode_change(state, true, now);
        return EventDisposition::Swallow;
    }
    if state.capture_action.is_some() {
        handle_capture_key_down(state, keycode, flags);
        return EventDisposition::Swallow;
    }
    handle_key_down_rest(state, keycode, flags, now)
}

/// A key went up.
#[verifier::spinoff_prover]
pub fn handle_key_up(state: &mut ListenerState, keycode: i64, now: u64) -> (r: EventDisposition)
    ensures
        final(state)@ === key_up(old(state)@, keycode, now).0,
        r == key_up(old(state)@, keycode, now).1,
{
    if is_function_keycode(keycode) {
        handle_function_keycode_change(state, false, now);
        return EventDisposition::Swallow;
    }
    if keycode == KEYCODE_SPACE && state.fn_space_down {
        set_fn_space_down(state, false);
        return EventDisposition::Swallow;
    }
    EventDisposition::PassThrough
}

/// Handles one event from the event tap, which arrived at `now` (milliseconds
/// on a monotonic clock), and says what the tap does with it.
#[verifier::spinoff_prover]
pub fn handle_event(state: &mut ListenerState, event: KeyEvent, now: u64) -> (r: EventDisposition)
    ensures
        final(state)@ === event_step(old(state)@, event, now).0,
        r == event_step(old(state)@, event, now).1,
{
    match event {
        KeyEvent::FlagsChanged { flags } => {
            handle_flags_changed(state, flags, now);
            EventDisposition::PassThrough
        },
        KeyEvent::KeyDown { keycode, flags } => handle_key_down(state, keycode, flags, now),
        KeyEvent::KeyUp { keycode } => handle_key_up(state, keycode, now),
        KeyEvent::TapDisabled => EventDisposition::ReenableTap,
        KeyEvent::Other => EventDisposition::PassThrough,
    }
}

/// Drops pending taps, holds and captures, hides the cheat sheet and forgets
/// the Fn sources.
#[verifier::spinoff_prover]
pub fn settle_exec(state: &mut ListenerState)
    ensures
        final(state)@ === settle(old(state)@),
{
    invalidate_pending_fn_tap(state);
    invalidate_pending_capture_fn_tap(state);
    invalidate_pending_fn_hold_cheat_sheet(state);
    hide_fn_hold_cheat_sheet(state);
    reset_fn_tap_sequence(state);
    reset_function_sources(state);
}

/// The state a newly started listener begins in: nothing held, nothing
/// pending, the double-tap threshold at least 50 ms.
pub fn spawn_listener(runtime: KeyboardRuntimeSettings) -> (r: ListenerState)
    ensures
        r@ === initial_view(runtime),
{
    let threshold_ms = if runtime.double_tap_threshold_ms < 50 {
        50
    } else {
        runtime.double_tap_threshold_ms
    };
    let r = ListenerState {
        threshold_ms,
        runtime,
        meta_down: false,
        control_down: false,
        control_chord_used: false,
        fn_down: false,
        fn_modifier_down: false,
        fn_keycode_down: false,
        suppress_fn_modifier_until_up: false,
        suppress_fn_keycode_until_up: false,
        last_fn_modifier_release_at: None,
        last_fn_keycode_release_at: None,
        fn_space_combo: false,
        fn_chord_used: false,
        fn_space_down: false,
        fn_recent_release: false,
        voice_overlay_visible: false,
        fn_hold_generation: 0,
        fn_hold_cheat_sheet_visible: false,
        fn_hold_cheat_sheet_used: false,
        fn_release_generation: 0,
        fn_recent_release_at: None,
        last_fn_tap: None,
        capture_action: None,
        capture_fn_down: false,
        capture_fn_tap_at: None,
        capture_fn_release_generation: 0,
        last_cmd_c: None,
        outbox: Vec::new(),
        timers: Vec::new(),
    };
    proof {
        reveal(super::tviews);
    }
    assert(r@.outbox =~= Seq::<TriggerView>::empty());
    assert(r@ =~= initial_view(runtime));
    r
}

#[verifier::spinoff_prover]
pub fn set_runtime(state: &mut ListenerState, runtime: KeyboardRuntimeSettings)
    ensures
        final(state)@ === with_runtime(old(state)@, runtime),
{
    state.threshold_ms = if runtime.double_tap_threshold_ms < 50 {
        50
    } else {
        runtime.double_tap_threshold_ms
    };
    state.runtime = runtime;
}

/// New settings: the threshold and shortcuts change, and whatever was
/// pending is dropped.
#[verifier::spinoff_prover]
pub fn update_runtime_settings(state: &mut ListenerState, runtime: KeyboardRuntimeSettings)
    ensures
        final(state)@ === settle(with_runtime(old(state)@, runtime)),
{
    set_runtime(state, runtime);
    settle_exec(state);
}

#[verifier::spinoff_prover]
pub fn start_capture_exec(state: &mut ListenerState, action: ShortcutAction)
    ensures
        final(state)@ === start_capture(old(state)@, action),
{
    state.capture_action = Some(action);
    state.capture_fn_down = false;
    state.fn_space_down = false;
    state.fn_space_combo = false;
    state.fn_chord_used = false;
}

/// The error given when shortcut capture is asked for before the listener runs.
pub open spec fn listener_not_running_error() -> Seq<char> {
    "キーボードリスナーが起動していません。"@
}

/// The next key press (or Fn tap) is captured as the shortcut for `action`.
/// `listener` is the running listener, `None` until one was spawned; without
/// one nothing changes and the call fails.
#[verifier::spinoff_prover]
pub fn begin_shortcut_capture(listener: &mut Option<ListenerState>, action: ShortcutAction) -> (r: Result<(), String>)
    ensures
        match *old(listener) {
            None => {
                &&& *final(listener) === None
                &&& r matches Err(e) && e@ == listener_not_running_error()
            },
            Some(s) => {
                &&& r is Ok
                &&& *final(listener) matches Some(t) && t@ === settle(start_capture(s@, action))
            },
        },
{
    match listener.take() {
        None => Err(crate::text::owned("キーボードリスナーが起動していません。")),
        Some(state) => {
            let mut state = state;
            start_capture_exec(&mut state, action);
            settle_exec(&mut state);
            *listener = Some(state);
            Ok(())
        },
    }
}

/// Shortcut capture stops without reporting anything.
#[verifier::spinoff_prover]
pub fn cancel_shortcut_capture(state: &mut ListenerState)
    ensures
        final(state)@ === settle(clear_capture(old(state)@)),
{
    clear_capture_exec(state);
    settle_exec(state);
}

/// Whether the voice overlay is on screen (Escape is then swallowed).
#[verifier::spinoff_prover]
pub fn set_voice_overlay_visible(state: &mut ListenerState, visible: bool)
    ensures
        final(state)@ === with_overlay(old(state)@, visible),
{
    state.voice_overlay_visible = visible;
}

/// Hands out the triggers queued so far, oldest first, and empties the queue.
#[verifier::spinoff_prover]
pub fn take_triggers(state: &mut ListenerState) -> (r: Vec<KeyboardTrigger>)
    ensures
        super::tviews(r@) == old(state)@.outbox,
        final(state)@ === (ListenerView { outbox: Seq::empty(), ..old(state)@ }),
{
    let mut out: Vec<KeyboardTrigger> = Vec::new();
    std::mem::swap(&mut out, &mut state.outbox);
    proof {
        reveal(super::tviews);
    }
    assert(super::tviews(state.outbox@) =~= Seq::<TriggerView>::empty());
    out
}

/// Hands out the timers requested so far, oldest first, and empties the list.
#[verifier::spinoff_prover]
pub fn take_timers(state: &mut ListenerState) -> (r: Vec<TimerRequest>)
    ensures
        r@ == old(state)@.timers,
        final(state)@ === (ListenerView { timers: Seq::empty(), ..old(state)@ }),
{
    let mut out: Vec<TimerRequest> = Vec::new();
    std::mem::swap(&mut out, &mut state.timers);
    assert(state.timers@ =~= Seq::<TimerRequest>::empty());
    out
}

} // verus!
