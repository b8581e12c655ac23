//! What the app does when the keyboard listener reports a trigger.
use vstd::prelude::*;

use crate::keyboard::KeyboardTrigger;
use crate::live::VoiceMode;
use crate::settings::{ShortcutAction, ShortcutBinding};

verus! {

/// The app's answer to a keyboard trigger.
#[derive(Debug, Clone, PartialEq, Eq)]
pub enum TriggerAction {
    /// Read the clipboard, show the main window and hand it the text.
    TranslateClipboard,
    StartSession { mode: VoiceMode },
    StopSession,
    CancelSession,
    CycleVoiceMode,
    PolishSelection,
    ShowCheatSheet,
    HideCheatSheet,
    ReportCapturedShortcut { action: ShortcutAction, shortcut: ShortcutBinding },
    ReportCaptureCancelled { action: ShortcutAction, reason: String },
    Nothing,
}

/// A Fn tap toggles dictation; the dictation shortcut and Fn+Space only start
/// a session (dictation, a question) when none runs; Escape cancels; a lone
/// Control switches the voice mode.
pub open spec fn action_for(trigger: KeyboardTrigger, voice_active: bool) -> TriggerAction {
    match trigger {
        KeyboardTrigger::CmdCopyDouble => TriggerAction::TranslateClipboard,
        KeyboardTrigger::FunctionTap => if voice_active {
            TriggerAction::StopSession
        } else {
            TriggerAction::StartSession { mode: VoiceMode::Dictation }
        },
        KeyboardTrigger::VoiceDictationStart => if voice_active {
            TriggerAction::Nothing
        } else {
            TriggerAction::StartSession { mode: VoiceMode::Dictation }
        },
        KeyboardTrigger::FunctionSpace => if voice_active {
            TriggerAction::Nothing
        } else {
            TriggerAction::StartSession { mode: VoiceMode::Ask }
        },
        KeyboardTrigger::PolishSelection => TriggerAction::PolishSelection,
        KeyboardTrigger::ShortcutCheatSheetShow => TriggerAction::ShowCheatSheet,
        KeyboardTrigger::ShortcutCheatSheetHide => TriggerAction::HideCheatSheet,
        KeyboardTrigger::VoiceModeCycle => TriggerAction::CycleVoiceMode,
        KeyboardTrigger::Escape => TriggerAction::CancelSession,
        KeyboardTrigger::ShortcutCaptured { action, shortcut } => TriggerAction::ReportCapturedShortcut {
            action,
            shortcut,
        },
        KeyboardTrigger::ShortcutCaptureCancelled { action, reason } => TriggerAction::ReportCaptureCancelled {
            action,
            reason,
        },
    }
}

pub fn trigger_action(trigger: KeyboardTrigger, voice_active: bool) -> (r: TriggerAction)
    ensures
        r == action_for(trigger, voice_active),
{
    match trigger {
        KeyboardTrigger::CmdCopyDouble => TriggerAction::TranslateClipboard,
        KeyboardTrigger::FunctionTap => if voice_active {
            TriggerAction::StopSession
        } else {
            TriggerAction::StartSession { mode: VoiceMode::Dictation }
        },
        KeyboardTrigger::VoiceDictationStart => if voice_active {
            TriggerAction::Nothing
        } else {
            TriggerAction::StartSession { mode: VoiceMode::Dictation }
        },
        KeyboardTrigger::FunctionSpace => if voice_active {
            TriggerAction::Nothing
        } else {
            TriggerAction::StartSession { mode: VoiceMode::Ask }
        },
        KeyboardTrigger::PolishSelection => TriggerAction::PolishSelection,
        KeyboardTrigger::ShortcutCheatSheetShow => TriggerAction::ShowCheatSheet,
        KeyboardTrigger::ShortcutCheatSheetHide => TriggerAction::HideCheatSheet,
        KeyboardTrigger::VoiceModeCycle => TriggerAction::CycleVoiceMode,
        KeyboardTrigger::Escape => TriggerAction::CancelSession,
        KeyboardTrigger::ShortcutCaptured { action, shortcut } => TriggerAction::ReportCapturedShortcut {
            action,
            shortcut,
        },
        KeyboardTrigger::ShortcutCaptureCancelled { action, reason } => TriggerAction::ReportCaptureCancelled {
            action,
            reason,
        },
    }
}

} // verus!
