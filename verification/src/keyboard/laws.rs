//! What every step of the listener keeps.
use vstd::prelude::*;

use super::{
    after_source, capture_fn_change, capture_fn_released, capture_key_down, capture_tap_fired,
    cancel_capture_view, clear_capture, complete_capture_view, confirm_pending, confirmed_tap,
    control_edge, end_capture, event_step, flags_changed, fn_pressed, fn_released, hold_fired,
    initial_view, key_down, key_down_rest, key_up, settle, source_change, start_capture,
    tap_grace_fired, with_meta, with_overlay, with_runtime, FunctionSource, KeyEvent,
    KeyboardRuntimeSettings, ListenerView, key_event_trigger, EventDisposition, TriggerView,
    KEYCODE_C, cheat_sheet_trigger, cmd_c_step, fn_chord_step, mark_control_chord,
    KEYCODE_SPACE, fn_space_trigger,
};
use crate::settings::ShortcutAction;

verus! {

/// Fn counts as held exactly when one of its two sources is down.
pub open spec fn sources_consistent(v: ListenerView) -> bool {
    v.fn_down == (v.fn_modifier_down || v.fn_keycode_down)
}

/// The Fn source fields are the same.
pub open spec fn same_sources(a: ListenerView, b: ListenerView) -> bool {
    &&& a.fn_down == b.fn_down
    &&& a.fn_modifier_down == b.fn_modifier_down
    &&& a.fn_keycode_down == b.fn_keycode_down
}

proof fn lemma_fn_pressed_keeps_sources(v: ListenerView, now: u64)
    ensures
        same_sources(fn_pressed(v, now), v),
{
    reveal(fn_pressed);
    reveal(confirmed_tap);
}

proof fn lemma_fn_released_keeps_sources(v: ListenerView, now: u64)
    ensures
        same_sources(fn_released(v, now), v),
{
    reveal(fn_released);
}

proof fn lemma_end_capture_consistent(v: ListenerView)
    ensures
        sources_consistent(end_capture(v)),
        !end_capture(v).fn_down,
{
    reveal(end_capture);
}

proof fn lemma_complete_capture_consistent(v: ListenerView, s: crate::settings::BindingView)
    requires
        sources_consistent(v),
    ensures
        sources_consistent(complete_capture_view(v, s)),
{
    lemma_end_capture_consistent(v);
}

proof fn lemma_cancel_capture_consistent(v: ListenerView, reason: Seq<char>)
    requires
        sources_consistent(v),
    ensures
        sources_consistent(cancel_capture_view(v, reason)),
{
    lemma_end_capture_consistent(v);
}

proof fn lemma_capture_fn_change_consistent(v: ListenerView, down: bool, now: u64)
    requires
        sources_consistent(v),
    ensures
        sources_consistent(capture_fn_change(v, down, now)),
{
    reveal(capture_fn_change);
    reveal(capture_fn_released);
    if !down && v.capture_fn_down {
        let w = ListenerView { capture_fn_down: false, ..v };
        lemma_end_capture_consistent(w);
        lemma_end_capture_consistent(super::invalidate_capture_tap(w));
    }
}

proof fn lemma_after_source_consistent(v: ListenerView, was: bool, now: u64)
    requires
        v.fn_down == was,
    ensures
        sources_consistent(after_source(v, was, now)),
{
    reveal(after_source);
    let active = v.fn_modifier_down || v.fn_keycode_down;
    if was != active {
        let w = super::with_fn_down(v, active);
        if w.capture_action is Some {
            lemma_capture_fn_change_consistent(w, active, now);
        } else if active {
            lemma_fn_pressed_keeps_sources(w, now);
        } else {
            lemma_fn_released_keeps_sources(w, now);
        }
    }
}

proof fn lemma_source_change_consistent(v: ListenerView, s: FunctionSource, down: bool, now: u64)
    requires
        sources_consistent(v),
    ensures
        sources_consistent(source_change(v, s, down, now)),
{
    reveal(source_change);
    if down {
        lemma_after_source_consistent(super::with_source_down(v, s, true), v.fn_down, now);
    } else {
        lemma_after_source_consistent(
            super::with_release_at(super::with_source_down(v, s, false), s, now),
            v.fn_down,
            now,
        );
    }
}

proof fn lemma_key_steps_keep_sources(v: ListenerView, keycode: i64, now: u64)
    ensures
        same_sources(super::mark_control_chord(v), v),
        same_sources(super::hide_cheat(v), v),
        same_sources(super::escape_step(v), v),
        same_sources(super::space_chord_start(v), v),
        same_sources(super::space_chord_finish(v), v),
        same_sources(super::fn_chord_step(v), v),
        same_sources(super::cmd_c_step(v, keycode, now), v),
{
}

#[verifier::spinoff_prover]
proof fn lemma_key_down_rest_keeps_sources(v: ListenerView, keycode: i64, flags: u64, now: u64)
    ensures
        same_sources(key_down_rest(v, keycode, flags, now).0, v),
{
    let a = super::mark_control_chord(v);
    lemma_key_steps_keep_sources(v, keycode, now);
    lemma_key_steps_keep_sources(a, keycode, now);
    lemma_key_steps_keep_sources(super::space_chord_start(a), keycode, now);
    let b = super::fn_chord_step(a);
    lemma_key_steps_keep_sources(b, keycode, now);
}

/// Fn counts as held exactly when its modifier flag or its key is down, before
/// and after any key event.
pub proof fn lemma_event_keeps_fn_state_consistent(v: ListenerView, event: KeyEvent, now: u64)
    requires
        sources_consistent(v),
    ensures
        sources_consistent(event_step(v, event, now).0),
{
    match event {
        KeyEvent::FlagsChanged { flags } => {
            let a = control_edge(with_meta(v, super::command_flag(flags)), flags);
            assert(same_sources(a, v));
            lemma_source_change_consistent(a, FunctionSource::Modifier, super::fn_flag(flags), now);
        },
        KeyEvent::KeyDown { keycode, flags } => {
            if super::is_fn_keycode(keycode) {
                lemma_source_change_consistent(v, FunctionSource::Keycode, true, now);
            } else if v.capture_action is Some {
                lemma_cancel_capture_consistent(v, super::capture_cancel_reason());
                lemma_complete_capture_consistent(
                    super::invalidate_capture_tap(v),
                    super::key_event_view(keycode, flags),
                );
            } else {
                lemma_key_down_rest_keeps_sources(v, keycode, flags, now);
            }
        },
        KeyEvent::KeyUp { keycode } => {
            if super::is_fn_keycode(keycode) {
                lemma_source_change_consistent(v, FunctionSource::Keycode, false, now);
            }
        },
        _ => {},
    }
}

/// The same holds after the timers fire and after the app's own calls, and
/// of a listener that has just started.
pub proof fn lemma_timers_and_calls_keep_fn_state_consistent(
    v: ListenerView,
    token: u64,
    now: u64,
    released_at: u64,
    runtime: KeyboardRuntimeSettings,
    action: ShortcutAction,
    visible: bool,
)
    requires
        sources_consistent(v),
    ensures
        sources_consistent(tap_grace_fired(v, token, now)),
        sources_consistent(hold_fired(v, token)),
        sources_consistent(capture_tap_fired(v, token, released_at)),
        sources_consistent(settle(with_runtime(v, runtime))),
        sources_consistent(settle(start_capture(v, action))),
        sources_consistent(settle(clear_capture(v))),
        sources_consistent(with_overlay(v, visible)),
        sources_consistent(initial_view(runtime)),
{
    reveal(confirmed_tap);
    lemma_complete_capture_consistent(v, super::fn_key_view());
}

/// A timer that was superseded (its token no longer current) does nothing.
pub proof fn lemma_stale_timers_do_nothing(v: ListenerView, token: u64, now: u64, released_at: u64)
    ensures
        token != v.fn_release_generation ==> tap_grace_fired(v, token, now) == v,
        token != v.fn_hold_generation ==> hold_fired(v, token) == v,
        token != v.capture_fn_release_generation ==> capture_tap_fired(v, token, released_at) == v,
{
}

/// Command+C, with Command held outside capture and the cheat sheet, and no
/// shortcut on the key, reaches the Command+C check (after a held Fn has
/// turned into a chord).
#[verifier::spinoff_prover]
proof fn lemma_cmd_c_key_down(v: ListenerView, flags: u64, now: u64)
    requires
        v.capture_action is None,
        !v.fn_hold_cheat_sheet_visible,
        key_event_trigger(v.runtime, KEYCODE_C, flags) is None,
    ensures
        event_step(v, KeyEvent::KeyDown { keycode: KEYCODE_C, flags }, now) == (
            cmd_c_step(fn_chord_step(mark_control_chord(v)), KEYCODE_C, now),
            EventDisposition::PassThrough,
        ),
{
    let a = mark_control_chord(v);
    assert(a.runtime == v.runtime && a.fn_down == v.fn_down);
    assert(!a.fn_hold_cheat_sheet_visible);
    assert(cheat_sheet_trigger(a.fn_hold_cheat_sheet_visible, KEYCODE_C) is None);
    let b = fn_chord_step(a);
    assert(b.runtime == a.runtime);
    assert(key_down_rest(v, KEYCODE_C, flags, now) == (
        cmd_c_step(b, KEYCODE_C, now),
        EventDisposition::PassThrough,
    ));
    assert(key_down(v, KEYCODE_C, flags, now) == key_down_rest(v, KEYCODE_C, flags, now));
}

/// The listener is ready for Command+C: Command held, no capture, no cheat
/// sheet, and no shortcut on the key. Fn may be held or just released.
pub open spec fn cmd_c_ready(v: ListenerView, flags: u64) -> bool {
    &&& v.meta_down
    &&& v.capture_action is None
    &&& !v.fn_hold_cheat_sheet_visible
    &&& key_event_trigger(v.runtime, KEYCODE_C, flags) is None
}

/// One Command+C press from a ready listener: it stays ready, passes the
/// event through, and either reports a double press (and starts the count
/// over) or records its time; a press with no earlier press pending only
/// records its time and sends nothing.
#[verifier::spinoff_prover]
pub proof fn lemma_cmd_c_press(v: ListenerView, flags: u64, now: u64)
    requires
        cmd_c_ready(v, flags),
    ensures
        ({
            let r = event_step(v, KeyEvent::KeyDown { keycode: KEYCODE_C, flags }, now);
            &&& r.1 == EventDisposition::PassThrough
            &&& cmd_c_ready(r.0, flags)
            &&& r.0.threshold_ms == v.threshold_ms
            &&& match v.last_cmd_c {
                Some(prev) => if now < prev || now - prev <= v.threshold_ms {
                    r.0.outbox == v.outbox.push(TriggerView::CmdCopyDouble) && r.0.last_cmd_c is None
                } else {
                    r.0.outbox == v.outbox && r.0.last_cmd_c == Some(now)
                },
                None => r.0.outbox == v.outbox && r.0.last_cmd_c == Some(now),
            }
        }),
{
    lemma_cmd_c_key_down(v, flags, now);
    let a = mark_control_chord(v);
    assert(a.meta_down && a.last_cmd_c == v.last_cmd_c && a.outbox == v.outbox);
    assert(a.runtime == v.runtime && a.threshold_ms == v.threshold_ms);
    assert(!a.fn_hold_cheat_sheet_visible && a.capture_action is None);
    let b = fn_chord_step(a);
    assert(b.meta_down && b.last_cmd_c == v.last_cmd_c && b.outbox == v.outbox);
    assert(b.runtime == v.runtime && b.threshold_ms == v.threshold_ms);
    assert(!b.fn_hold_cheat_sheet_visible && b.capture_action is None);
}

/// Two Command+C presses within the double-tap threshold ask for a
/// translation: while Command is held, outside shortcut capture, with the
/// cheat sheet hidden and no configured shortcut on that key (whether or not
/// Fn is held or was just released), the first press only records its time
/// and passes through; the second, no later than the threshold after it,
/// reports `CmdCopyDouble` and consumes the pair, so a third press alone
/// sends nothing; a later second press only records its own time. Every
/// press is passed through to the focused app.
pub proof fn lemma_double_cmd_c_translates(v: ListenerView, flags: u64, t1: u64, t2: u64, t3: u64)
    requires
        cmd_c_ready(v, flags),
        v.last_cmd_c is None,
        t1 <= t2,
    ensures
        ({
            let r1 = event_step(v, KeyEvent::KeyDown { keycode: KEYCODE_C, flags }, t1);
            let r2 = event_step(r1.0, KeyEvent::KeyDown { keycode: KEYCODE_C, flags }, t2);
            let r3 = event_step(r2.0, KeyEvent::KeyDown { keycode: KEYCODE_C, flags }, t3);
            &&& r1.1 == EventDisposition::PassThrough
            &&& r1.0.outbox == v.outbox
            &&& r1.0.last_cmd_c == Some(t1)
            &&& r2.1 == EventDisposition::PassThrough
            &&& t2 - t1 <= v.threshold_ms ==> r2.0.outbox == v.outbox.push(TriggerView::CmdCopyDouble)
                && r2.0.last_cmd_c is None && r3.1 == EventDisposition::PassThrough && r3.0.outbox
                == r2.0.outbox && r3.0.last_cmd_c == Some(t3)
            &&& t2 - t1 > v.threshold_ms ==> r2.0.outbox == v.outbox && r2.0.last_cmd_c == Some(t2)
        }),
{
    lemma_cmd_c_press(v, flags, t1);
    let r1 = event_step(v, KeyEvent::KeyDown { keycode: KEYCODE_C, flags }, t1);
    lemma_cmd_c_press(r1.0, flags, t2);
    let r2 = event_step(r1.0, KeyEvent::KeyDown { keycode: KEYCODE_C, flags }, t2);
    lemma_cmd_c_press(r2.0, flags, t3);
}

/// A Space key-down while the chord's Space is already down (an auto-repeat
/// of the held key) is swallowed and reports nothing.
pub proof fn lemma_space_repeat_reports_nothing(v: ListenerView, flags: u64, now: u64)
    requires
        v.fn_space_down,
        v.capture_action is None,
        !v.fn_hold_cheat_sheet_visible,
        v.fn_down || v.fn_recent_release,
    ensures
        event_step(v, KeyEvent::KeyDown { keycode: KEYCODE_SPACE, flags }, now).0.outbox == v.outbox,
        event_step(v, KeyEvent::KeyDown { keycode: KEYCODE_SPACE, flags }, now).1
            == EventDisposition::Swallow,
{
}

proof fn lemma_space_press(v: ListenerView, flags: u64, now: u64)
    requires
        v.capture_action is None,
        !v.fn_hold_cheat_sheet_visible,
        v.fn_down || v.fn_recent_release,
    ensures
        event_step(v, KeyEvent::KeyDown { keycode: KEYCODE_SPACE, flags }, now) == (
            super::space_chord_finish(super::space_chord_start(mark_control_chord(v))),
            EventDisposition::Swallow,
        ),
{
    let a = mark_control_chord(v);
    assert(cheat_sheet_trigger(a.fn_hold_cheat_sheet_visible, KEYCODE_SPACE) is None);
}

/// Fn+Space fires the voice-ask shortcut once per Space press: with Fn held
/// (outside capture, cheat sheet hidden), the first Space key-down reports
/// the shortcut configured for Fn+Space, if there is one, and the key's
/// auto-repeat that follows reports nothing more; both are swallowed.
#[verifier::spinoff_prover]
pub proof fn lemma_fn_space_fires_once(v: ListenerView, flags1: u64, flags2: u64, t1: u64, t2: u64)
    requires
        !v.fn_space_down,
        v.fn_down,
        v.capture_action is None,
        !v.fn_hold_cheat_sheet_visible,
    ensures
        ({
            let r1 = event_step(v, KeyEvent::KeyDown { keycode: KEYCODE_SPACE, flags: flags1 }, t1);
            let r2 = event_step(r1.0, KeyEvent::KeyDown { keycode: KEYCODE_SPACE, flags: flags2 }, t2);
            &&& r1.1 == EventDisposition::Swallow
            &&& r2.1 == EventDisposition::Swallow
            &&& r1.0.outbox == match fn_space_trigger(v.runtime) {
                Some(t) => v.outbox.push(t@),
                None => v.outbox,
            }
            &&& r2.0.outbox == r1.0.outbox
        }),
{
    lemma_space_press(v, flags1, t1);
    let a = mark_control_chord(v);
    assert(a.fn_down && !a.fn_space_down && a.outbox == v.outbox && a.runtime == v.runtime);
    assert(!a.fn_hold_cheat_sheet_visible && a.capture_action is None);
    let b = super::space_chord_start(a);
    assert(b.fn_down && !b.fn_space_down && b.outbox == v.outbox && b.runtime == v.runtime);
    assert(!b.fn_hold_cheat_sheet_visible && b.capture_action is None);
    let c = super::space_chord_finish(b);
    assert(c.fn_space_down && c.fn_down);
    assert(!c.fn_hold_cheat_sheet_visible && c.capture_action is None);
    let r1 = event_step(v, KeyEvent::KeyDown { keycode: KEYCODE_SPACE, flags: flags1 }, t1);
    assert(r1.0 == c);
    lemma_space_repeat_reports_nothing(c, flags2, t2);
}

} // verus!
