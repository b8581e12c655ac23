//! The Fn key: its two sources, taps, double taps, holds, and the Control tap.
use vstd::prelude::*;

use super::{
    clear_recent, pending_time, with_fn_down, FN_SOURCE_DEDUP_MS, FunctionSource, KeyboardTrigger, ListenerState, ListenerView, TimerRequest, after_source, capture_fn_change, confirm_pending, confirmed_tap, control_has_other_modifiers, control_pressed, control_released, double_tap_trigger, fn_pressed, fn_released, handle_capture_fn_change, hide_fn_hold_cheat_sheet, hold_fired, invalidate_pending_fn_hold_cheat_sheet, invalidate_pending_fn_tap, push_timer, push_trigger, push_trigger_opt, schedule_hold, source_change, start_trigger_for_shortcut, tap_grace_fired, within_exec, wrapping_inc,
};
use crate::settings::{ShortcutAction, ShortcutBinding, ShortcutModifiers};
use crate::text::{chars_of, owned, push_decimal, string_from_chars};

verus! {

#[verifier::spinoff_prover]
#[verifier::rlimit(80)]
pub fn trigger_for_confirmed_fn_tap(state: &mut ListenerState, tapped_at: u64, emit_single_tap: bool) -> (r:
    Option<KeyboardTrigger>)
    ensures
        final(state)@ === confirmed_tap(old(state)@, tapped_at, emit_single_tap).0,
        r == confirmed_tap(old(state)@, tapped_at, emit_single_tap).1,
{
    proof {
        reveal(confirmed_tap);
    }
    let ghost v0 = state@;
    let is_double_tap = within_exec(state.last_fn_tap, tapped_at, state.threshold_ms);
    let ghost w = if is_double_tap {
        ListenerView { last_fn_tap: None, ..v0 }
    } else {
        v0
    };
    if is_double_tap {
        state.last_fn_tap = None;
        assert(state@ =~= w);
        let dt = ShortcutBinding::fn_double_tap();
        let t = start_trigger_for_shortcut(state, &dt);
        assert(t == double_tap_trigger(w.runtime));
        if t.is_some() {
            return t;
        }
    }
    assert(state@ =~= w);
    state.last_fn_tap = Some(tapped_at);
    assert(state@ =~= ListenerView { last_fn_tap: Some(tapped_at), ..w });
    if emit_single_tap {
        Some(KeyboardTrigger::FunctionTap)
    } else {
        None
    }
}

#[verifier::spinoff_prover]
#[verifier::rlimit(80)]
pub fn confirm_pending_fn_tap(state: &mut ListenerState, emit_single_tap: bool, now: u64) -> (r: Option<
    KeyboardTrigger,
>)
    ensures
        final(state)@ === confirm_pending(old(state)@, emit_single_tap, now).0,
        r == confirm_pending(old(state)@, emit_single_tap, now).1,
{
    let tapped_at = clear_pending_release(state, now);
    trigger_for_confirmed_fn_tap(state, tapped_at, emit_single_tap)
}

#[verifier::spinoff_prover]
pub fn schedule_fn_hold_cheat_sheet(state: &mut ListenerState)
    ensures
        final(state)@ === schedule_hold(old(state)@),
{
    if state.voice_overlay_visible {
        return ;
    }
    state.fn_hold_generation = wrapping_inc(state.fn_hold_generation);
    let token = state.fn_hold_generation;
    push_timer(state, TimerRequest::FnHoldCheatSheet { token });
}

#[verifier::spinoff_prover]
#[verifier::rlimit(80)]
pub fn handle_fn_pressed(state: &mut ListenerState, now: u64)
    ensures
        final(state)@ === fn_pressed(old(state)@, now),
{
    proof {
        reveal(fn_pressed);
    }
    if state.fn_recent_release {
        let t = confirm_pending_fn_tap(state, false, now);
        push_trigger_opt(state, t);
    }
    state.fn_space_combo = false;
    state.fn_chord_used = false;
    state.fn_space_down = false;
    invalidate_pending_fn_tap(state);
    state.fn_hold_cheat_sheet_used = false;
    schedule_fn_hold_cheat_sheet(state);
}

#[verifier::spinoff_prover]
pub fn handle_fn_released(state: &mut ListenerState, now: u64)
    ensures
        final(state)@ === fn_released(old(state)@, now),
{
    proof {
        reveal(fn_released);
    }
    invalidate_pending_fn_hold_cheat_sheet(state);
    if state.fn_hold_cheat_sheet_visible || state.fn_hold_cheat_sheet_used {
        hide_fn_hold_cheat_sheet(state);
        state.fn_hold_cheat_sheet_used = false;
        state.fn_space_combo = false;
        state.fn_chord_used = false;
        return ;
    }
    if state.fn_space_combo || state.fn_chord_used {
        state.fn_space_combo = false;
        state.fn_chord_used = false;
        return ;
    }
    state.fn_release_generation = wrapping_inc(state.fn_release_generation);
    let token = state.fn_release_generation;
    state.fn_recent_release = true;
    state.fn_recent_release_at = Some(now);
    push_timer(state, TimerRequest::FnTapGrace { token });
}

#[verifier::spinoff_prover]
pub fn fire_fn_tap_grace(state: &mut ListenerState, token: u64, now: u64)
    ensures
        final(state)@ === tap_grace_fired(old(state)@, token, now),
{
    if state.fn_release_generation == token && state.fn_recent_release {
        let t = confirm_pending_fn_tap(state, true, now);
        push_trigger_opt(state, t);
    }
}

#[verifier::spinoff_prover]
pub fn fire_fn_hold_cheat_sheet(state: &mut ListenerState, token: u64)
    ensures
        final(state)@ === hold_fired(old(state)@, token),
{
    let should_show = state.fn_hold_generation == token && state.fn_down && !state.fn_chord_used
        && !state.fn_space_combo && !state.voice_overlay_visible && state.capture_action.is_none();
    if should_show {
        state.fn_hold_cheat_sheet_visible = true;
        state.fn_hold_cheat_sheet_used = true;
        state.voice_overlay_visible = true;
        push_trigger(state, KeyboardTrigger::ShortcutCheatSheetShow);
    }
}

#[verifier::spinoff_prover]
pub fn handle_control_pressed(state: &mut ListenerState, flags: u64)
    ensures
        final(state)@ === control_pressed(old(state)@, flags),
{
    state.control_chord_used = control_has_other_modifiers(flags);
}

#[verifier::spinoff_prover]
#[verifier::rlimit(80)]
pub fn handle_control_released(state: &mut ListenerState, flags: u64)
    ensures
        final(state)@ === control_released(old(state)@, flags),
{
    let should_cycle = !state.control_chord_used && !control_has_other_modifiers(flags);
    state.control_chord_used = false;
    if should_cycle {
        push_trigger(state, KeyboardTrigger::VoiceModeCycle);
    }
}

#[verifier::spinoff_prover]
#[verifier::rlimit(80)]
pub fn after_source_exec(state: &mut ListenerState, was_active: bool, now: u64)
    ensures
        final(state)@ === after_source(old(state)@, was_active, now),
{
    proof {
        reveal(after_source);
    }
    let is_active = state.fn_modifier_down || state.fn_keycode_down;
    if was_active == is_active {
        return ;
    }
    set_fn_down(state, is_active);
    dispatch_fn_change(state, is_active, now);
}

/// Clears the pending Fn release and returns when it happened.
#[verifier::spinoff_prover]
pub fn clear_pending_release(state: &mut ListenerState, now: u64) -> (t: u64)
    ensures
        final(state)@ === clear_recent(old(state)@),
        t == pending_time(old(state)@, now),
{
    let tapped_at = match state.fn_recent_release_at {
        Some(t) => t,
        None => now,
    };
    state.fn_recent_release = false;
    state.fn_recent_release_at = None;
    tapped_at
}

/// Sets whether Fn counts as held.
#[verifier::spinoff_prover]
pub fn set_fn_down(state: &mut ListenerState, b: bool)
    ensures
        final(state)@ === with_fn_down(old(state)@, b),
{
    state.fn_down = b;
}

/// Hands a change of the held Fn state to capture, or to the press or
/// release handling.
#[verifier::spinoff_prover]
pub fn dispatch_fn_change(state: &mut ListenerState, active: bool, now: u64)
    ensures
        final(state)@ === (if old(state)@.capture_action is Some {
            capture_fn_change(old(state)@, active, now)
        } else if active {
            fn_pressed(old(state)@, now)
        } else {
            fn_released(old(state)@, now)
        }),
{
    if state.capture_action.is_some() {
        handle_capture_fn_change(state, active, now);
    } else if active {
        handle_fn_pressed(state, now);
    } else {
        handle_fn_released(state, now);
    }
}

#[verifier::spinoff_prover]
#[verifier::rlimit(80)]
pub fn handle_function_source_change(
    state: &mut ListenerState,
    source: FunctionSource,
    source_down: bool,
    now: u64,
)
    ensures
        final(state)@ === source_change(old(state)@, source, source_down, now),
{
    proof {
        reveal(source_change);
    }
    let was_active = state.fn_down;
    let is_down = match source {
        FunctionSource::Modifier => state.fn_modifier_down,
        FunctionSource::Keycode => state.fn_keycode_down,
    };
    if source_down {
        if is_down {
            return ;
        }
        let other = match source {
            FunctionSource::Modifier => state.last_fn_keycode_release_at,
            FunctionSource::Keycode => state.last_fn_modifier_release_at,
        };
        if !was_active && within_exec(other, now, FN_SOURCE_DEDUP_MS) {
            match source {
                FunctionSource::Modifier => state.suppress_fn_modifier_until_up = true,
                FunctionSource::Keycode => state.suppress_fn_keycode_until_up = true,
            }
            return ;
        }
        match source {
            FunctionSource::Modifier => state.fn_modifier_down = true,
            FunctionSource::Keycode => state.fn_keycode_down = true,
        }
        after_source_exec(state, was_active, now);
    } else {
        let suppressed = match source {
            FunctionSource::Modifier => state.suppress_fn_modifier_until_up,
            FunctionSource::Keycode => state.suppress_fn_keycode_until_up,
        };
        if suppressed {
            match source {
                FunctionSource::Modifier => state.suppress_fn_modifier_until_up = false,
                FunctionSource::Keycode => state.suppress_fn_keycode_until_up = false,
            }
            return ;
        }
        if !is_down {
            return ;
        }
        match source {
            FunctionSource::Modifier => {
                state.fn_modifier_down = false;
                state.last_fn_modifier_release_at = Some(now);
            },
            FunctionSource::Keycode => {
                state.fn_keycode_down = false;
                state.last_fn_keycode_release_at = Some(now);
            },
        }
        after_source_exec(state, was_active, now);
    }
}

#[verifier::spinoff_prover]
pub fn handle_function_modifier_change(state: &mut ListenerState, fn_down: bool, now: u64)
    ensures
        final(state)@ === source_change(old(state)@, FunctionSource::Modifier, fn_down, now),
{
    handle_function_source_change(state, FunctionSource::Modifier, fn_down, now);
}

#[verifier::spinoff_prover]
pub fn handle_function_keycode_change(state: &mut ListenerState, fn_down: bool, now: u64)
    ensures
        final(state)@ === source_change(old(state)@, FunctionSource::Keycode, fn_down, now),
{
    handle_function_source_change(state, FunctionSource::Keycode, fn_down, now);
}



} // verus!
