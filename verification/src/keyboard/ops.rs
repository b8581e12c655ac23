//! Small updates of the listener state.
use vstd::prelude::*;

use super::{
    KeyboardTrigger, ListenerState, ListenerView, TimerRequest, cancel_capture_completion, hide_cheat, invalidate_capture_tap, invalidate_hold, invalidate_tap, reset_sources, reset_tap_sequence, send, send_opt, tviews, wrapping_inc,
};
use crate::settings::{ShortcutAction, ShortcutBinding, ShortcutModifiers};
use crate::text::{chars_of, owned, push_decimal, string_from_chars};

verus! {

pub fn push_trigger(state: &mut ListenerState, t: KeyboardTrigger)
    ensures
        final(state)@ === send(old(state)@, t@),
{
    let ghost before = tviews(state.outbox@);
    state.outbox.push(t);
    proof {
        reveal(tviews);
    }
    assert(tviews(state.outbox@) =~= before.push(t@));
}

pub fn push_trigger_opt(state: &mut ListenerState, t: Option<KeyboardTrigger>)
    ensures
        final(state)@ === send_opt(old(state)@, t),
{
    match t {
        Some(x) => push_trigger(state, x),
        None => {},
    }
}

pub fn push_timer(state: &mut ListenerState, t: TimerRequest)
    ensures
        final(state)@ === (ListenerView { timers: old(state)@.timers.push(t), ..old(state)@ }),
{
    state.timers.push(t);
}

pub fn invalidate_pending_fn_tap(state: &mut ListenerState)
    ensures
        final(state)@ === invalidate_tap(old(state)@),
{
    state.fn_release_generation = wrapping_inc(state.fn_release_generation);
    state.fn_recent_release = false;
    state.fn_recent_release_at = None;
}

pub fn invalidate_pending_fn_hold_cheat_sheet(state: &mut ListenerState)
    ensures
        final(state)@ === invalidate_hold(old(state)@),
{
    state.fn_hold_generation = wrapping_inc(state.fn_hold_generation);
}

pub fn hide_fn_hold_cheat_sheet(state: &mut ListenerState)
    ensures
        final(state)@ === hide_cheat(old(state)@),
{
    invalidate_pending_fn_hold_cheat_sheet(state);
    if state.fn_hold_cheat_sheet_visible {
        state.fn_hold_cheat_sheet_visible = false;
        state.voice_overlay_visible = false;
        push_trigger(state, KeyboardTrigger::ShortcutCheatSheetHide);
    }
}

pub fn reset_fn_tap_sequence(state: &mut ListenerState)
    ensures
        final(state)@ === reset_tap_sequence(old(state)@),
{
    state.last_fn_tap = None;
}

pub fn reset_function_sources(state: &mut ListenerState)
    ensures
        final(state)@ === reset_sources(old(state)@),
{
    state.fn_down = false;
    state.fn_modifier_down = false;
    state.fn_keycode_down = false;
    state.suppress_fn_modifier_until_up = false;
    state.suppress_fn_keycode_until_up = false;
    state.last_fn_modifier_release_at = None;
    state.last_fn_keycode_release_at = None;
}

pub fn cancel_pending_capture_fn_completion(state: &mut ListenerState)
    ensures
        final(state)@ === cancel_capture_completion(old(state)@),
{
    state.capture_fn_release_generation = wrapping_inc(state.capture_fn_release_generation);
}

pub fn invalidate_pending_capture_fn_tap(state: &mut ListenerState)
    ensures
        final(state)@ === invalidate_capture_tap(old(state)@),
{
    cancel_pending_capture_fn_completion(state);
    state.capture_fn_tap_at = None;
}


} // verus!
