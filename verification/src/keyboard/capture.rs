//! Shortcut capture on the settings screen.
use vstd::prelude::*;

use super::{
    clear_capture, clear_chord, KEYCODE_ESCAPE, KeyboardTrigger, ListenerState, TimerRequest, cancel_capture_view, cancel_pending_capture_fn_completion, capture_fn_change, capture_fn_released, capture_key_down, capture_tap_fired, complete_capture_view, end_capture, fn_double_tap_view, fn_key_view, invalidate_pending_capture_fn_tap, invalidate_pending_fn_hold_cheat_sheet, invalidate_pending_fn_tap, key_event_view, push_timer, push_trigger, push_trigger_opt, reset_fn_tap_sequence, reset_function_sources, send_opt, shortcut_from_key_event, start_trigger, start_trigger_for_shortcut, within_exec, wrapping_inc,
};
use crate::settings::{ShortcutAction, ShortcutBinding, ShortcutModifiers};
use crate::text::{chars_of, owned, push_decimal, string_from_chars};

verus! {

/// Stops capturing.
#[verifier::spinoff_prover]
pub fn clear_capture_exec(state: &mut ListenerState)
    ensures
        final(state)@ === clear_capture(old(state)@),
{
    state.capture_action = None;
    state.capture_fn_down = false;
}

/// Forgets the chord in progress; a held Fn counts as used.
#[verifier::spinoff_prover]
pub fn clear_chord_exec(state: &mut ListenerState)
    ensures
        final(state)@ === clear_chord(old(state)@),
{
    state.fn_space_down = false;
    state.fn_space_combo = false;
    state.fn_chord_used = state.fn_down;
}

#[verifier::spinoff_prover]
pub fn end_capture_exec(state: &mut ListenerState)
    ensures
        final(state)@ === end_capture(old(state)@),
{
    proof {
        reveal(end_capture);
    }
    clear_capture_exec(state);
    invalidate_pending_capture_fn_tap(state);
    clear_chord_exec(state);
    invalidate_pending_fn_tap(state);
    invalidate_pending_fn_hold_cheat_sheet(state);
    reset_fn_tap_sequence(state);
    reset_function_sources(state);
}

#[verifier::spinoff_prover]
pub fn complete_capture(state: &mut ListenerState, shortcut: ShortcutBinding)
    ensures
        final(state)@ === complete_capture_view(old(state)@, shortcut@),
{
    let action = match state.capture_action {
        Some(a) => a,
        None => {
            return ;
        },
    };
    end_capture_exec(state);
    push_trigger(state, KeyboardTrigger::ShortcutCaptured { action, shortcut });
}

#[verifier::spinoff_prover]
pub fn cancel_capture(state: &mut ListenerState, reason: String)
    ensures
        final(state)@ === cancel_capture_view(old(state)@, reason@),
{
    let action = match state.capture_action {
        Some(a) => a,
        None => {
            return ;
        },
    };
    end_capture_exec(state);
    push_trigger(state, KeyboardTrigger::ShortcutCaptureCancelled { action, reason });
}

#[verifier::spinoff_prover]
pub fn complete_pending_capture_fn_tap(state: &mut ListenerState, token: u64, released_at: u64)
    ensures
        final(state)@ === capture_tap_fired(old(state)@, token, released_at),
{
    let pending_matches = state.capture_fn_release_generation == token && match state.capture_fn_tap_at {
        Some(t) => t == released_at,
        None => false,
    } && state.capture_action.is_some();
    if pending_matches {
        let b = ShortcutBinding::fn_key();
        assert(b@ == fn_key_view());
        complete_capture(state, b);
    }
}

#[verifier::spinoff_prover]
pub fn handle_capture_fn_released(state: &mut ListenerState, now: u64)
    ensures
        final(state)@ === capture_fn_released(old(state)@, now),
{
    proof {
        reveal(capture_fn_released);
    }
    let is_double_tap = within_exec(state.capture_fn_tap_at, now, state.threshold_ms);
    if is_double_tap {
        invalidate_pending_capture_fn_tap(state);
        let b = ShortcutBinding::fn_double_tap();
        assert(b@ == fn_double_tap_view());
        complete_capture(state, b);
        return ;
    }
    state.capture_fn_tap_at = Some(now);
    state.capture_fn_release_generation = wrapping_inc(state.capture_fn_release_generation);
    let token = state.capture_fn_release_generation;
    push_timer(state, TimerRequest::CaptureFnTap { token, released_at: now });
}

#[verifier::spinoff_prover]
pub fn handle_capture_fn_change(state: &mut ListenerState, fn_down: bool, now: u64)
    ensures
        final(state)@ === capture_fn_change(old(state)@, fn_down, now),
{
    proof {
        reveal(capture_fn_change);
    }
    if fn_down {
        state.capture_fn_down = true;
        cancel_pending_capture_fn_completion(state);
        invalidate_pending_fn_tap(state);
        return ;
    }
    if state.capture_fn_down {
        state.capture_fn_down = false;
        handle_capture_fn_released(state, now);
    }
}

#[verifier::spinoff_prover]
pub fn handle_capture_key_down(state: &mut ListenerState, keycode: i64, flags: u64)
    ensures
        final(state)@ === capture_key_down(old(state)@, keycode, flags),
{
    if keycode == KEYCODE_ESCAPE {
        let reason = owned("キャンセルしました。");
        cancel_capture(state, reason);
        return ;
    }
    invalidate_pending_capture_fn_tap(state);
    let b = shortcut_from_key_event(keycode, flags);
    assert(b@ == key_event_view(keycode, flags));
    complete_capture(state, b);
}

#[verifier::spinoff_prover]
pub fn send_voice_shortcut_if_matched(state: &mut ListenerState, shortcut: &ShortcutBinding)
    ensures
        final(state)@ === send_opt(old(state)@, start_trigger(old(state).runtime, *shortcut)),
{
    let t = start_trigger_for_shortcut(state, shortcut);
    push_trigger_opt(state, t);
}


} // verus!
