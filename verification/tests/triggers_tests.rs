use enja::keyboard::KeyboardTrigger;
use enja::live::VoiceMode;
use enja::settings::{ShortcutAction, ShortcutBinding};
use enja::triggers::{trigger_action, TriggerAction};

#[test]
fn fn_tap_toggles_dictation() {
    assert_eq!(
        trigger_action(KeyboardTrigger::FunctionTap, false),
        TriggerAction::StartSession { mode: VoiceMode::Dictation }
    );
    assert_eq!(trigger_action(KeyboardTrigger::FunctionTap, true), TriggerAction::StopSession);
}

#[test]
fn start_shortcuts_only_start() {
    assert_eq!(
        trigger_action(KeyboardTrigger::VoiceDictationStart, false),
        TriggerAction::StartSession { mode: VoiceMode::Dictation }
    );
    assert_eq!(trigger_action(KeyboardTrigger::VoiceDictationStart, true), TriggerAction::Nothing);
    assert_eq!(
        trigger_action(KeyboardTrigger::FunctionSpace, false),
        TriggerAction::StartSession { mode: VoiceMode::Ask }
    );
    assert_eq!(trigger_action(KeyboardTrigger::FunctionSpace, true), TriggerAction::Nothing);
}

#[test]
fn other_triggers_map_one_to_one() {
    assert_eq!(trigger_action(KeyboardTrigger::CmdCopyDouble, true), TriggerAction::TranslateClipboard);
    assert_eq!(trigger_action(KeyboardTrigger::Escape, false), TriggerAction::CancelSession);
    assert_eq!(trigger_action(KeyboardTrigger::VoiceModeCycle, true), TriggerAction::CycleVoiceMode);
    assert_eq!(trigger_action(KeyboardTrigger::PolishSelection, false), TriggerAction::PolishSelection);
    assert_eq!(trigger_action(KeyboardTrigger::ShortcutCheatSheetShow, false), TriggerAction::ShowCheatSheet);
    assert_eq!(trigger_action(KeyboardTrigger::ShortcutCheatSheetHide, false), TriggerAction::HideCheatSheet);
    assert_eq!(
        trigger_action(
            KeyboardTrigger::ShortcutCaptured { action: ShortcutAction::VoiceAsk, shortcut: ShortcutBinding::fn_space() },
            false
        ),
        TriggerAction::ReportCapturedShortcut { action: ShortcutAction::VoiceAsk, shortcut: ShortcutBinding::fn_space() }
    );
    assert_eq!(
        trigger_action(
            KeyboardTrigger::ShortcutCaptureCancelled { action: ShortcutAction::VoiceDictation, reason: "x".to_string() },
            false
        ),
        TriggerAction::ReportCaptureCancelled { action: ShortcutAction::VoiceDictation, reason: "x".to_string() }
    );
}
