use enja::paste::{
    allow_own_target, command_keycode, inserted_range_from_snapshots, is_ambiguous_external_paste_candidate,
    is_attemptable_paste_target, is_fallback_paste_candidate, is_pasteable_target,
    is_verified_paste_candidate, is_web_content_paste_candidate, manual_accessibility_retry_pid,
    paste_plan, verify_paste_insertion, AxTextSnapshot, PastePlan, PasteTargetInfo,
    VerifiedPasteInsertion,
};
use enja::text_diff::TextRange;

fn paste_target(role: &str, subrole: &str, attributes: &[&str]) -> PasteTargetInfo {
    PasteTargetInfo {
        pid: None,
        role: role.to_string(),
        subrole: subrole.to_string(),
        attributes: attributes.iter().map(|value| value.to_string()).collect(),
    }
}

fn pid_target(pid: i32, role: &str) -> PasteTargetInfo {
    PasteTargetInfo {
        pid: Some(pid),
        role: role.to_string(),
        subrole: String::new(),
        attributes: Vec::new(),
    }
}

fn ax_text_snapshot(value: &str, selection_location: usize, selection_length: usize) -> AxTextSnapshot {
    AxTextSnapshot {
        pid: 4242,
        value: value.to_string(),
        selected_range: TextRange {
            location: selection_location,
            length: selection_length,
        },
    }
}

#[test]
fn paste_target_accepts_text_input_roles() {
    assert!(is_pasteable_target(&paste_target("AXTextArea", "", &[])));
    assert!(is_pasteable_target(&paste_target("", "AXTextField", &[])));
}

#[test]
fn paste_target_attempt_skips_own_text_input_unless_allowed() {
    let target = pid_target(100, "AXTextArea");

    assert!(is_pasteable_target(&target));
    assert!(!is_verified_paste_candidate(&target, 100, false));
    assert!(!is_attemptable_paste_target(&target, 100, false));
    assert!(is_verified_paste_candidate(&target, 100, true));
    assert!(is_attemptable_paste_target(&target, 100, true));
}

#[test]
fn paste_target_accepts_editor_cursor_attributes() {
    assert!(is_pasteable_target(&paste_target("AXGroup", "", &["AXRole", "AXSelectedTextRange"])));
    assert!(is_pasteable_target(&paste_target("AXWebArea", "", &["AXInsertionPointLineNumber"])));
    assert!(is_pasteable_target(&paste_target("AXGroup", "", &["AXSelectedTextMarkerRange"])));
    assert!(is_pasteable_target(&paste_target("AXStaticText", "", &["AXEditableAncestor"])));
}

#[test]
fn paste_target_rejects_unclear_roles_without_cursor_attributes() {
    assert!(!is_pasteable_target(&paste_target("AXGroup", "", &["AXRole", "AXValue"])));
    assert!(!is_pasteable_target(&paste_target("AXWebArea", "", &["AXRole"])));
    assert!(!is_pasteable_target(&paste_target("AXUnknown", "", &[])));
}

#[test]
fn paste_target_treats_web_area_as_fallback_candidate() {
    assert!(is_web_content_paste_candidate(&paste_target("AXWebArea", "", &["AXRole"]), 100, false));
    assert!(is_web_content_paste_candidate(&paste_target("", "AXWebArea", &["AXRole"]), 100, false));
}

#[test]
fn paste_target_fallback_skips_own_web_area_unless_allowed() {
    let target = pid_target(100, "AXWebArea");

    assert!(!is_web_content_paste_candidate(&target, 100, false));
    assert!(is_web_content_paste_candidate(&target, 100, true));
}

#[test]
fn paste_target_treats_pid_only_external_target_as_fallback_candidate() {
    let target = pid_target(4242, "");

    assert!(is_ambiguous_external_paste_candidate(&target, 100));
    assert!(is_attemptable_paste_target(&target, 100, false));
}

#[test]
fn paste_target_rejects_ambiguous_own_target_even_when_own_allowed() {
    let target = pid_target(100, "");

    assert!(!is_ambiguous_external_paste_candidate(&target, 100));
    assert!(!is_fallback_paste_candidate(&target, 100, true));
    assert!(!is_attemptable_paste_target(&target, 100, true));
}

#[test]
fn paste_target_rejects_known_non_text_external_target_as_fallback_candidate() {
    let target = pid_target(4242, "AXButton");

    assert!(!is_fallback_paste_candidate(&target, 100, false));
    assert!(!is_attemptable_paste_target(&target, 100, false));
}

#[test]
fn paste_target_info_parses_osascript_output() {
    let target =
        PasteTargetInfo::from_osascript_output("AXGroup\nAXTextArea\nAXRole, AXSelectedTextRange\n")
            .expect("target");

    assert_eq!(target.pid, None);
    assert_eq!(target.role, "AXGroup");
    assert_eq!(target.subrole, "AXTextArea");
    assert!(target.has_attribute("AXSelectedTextRange"));
}

#[test]
fn paste_target_info_parses_pid_osascript_output() {
    let target = PasteTargetInfo::from_osascript_output(
        "4242\nAXGroup\nAXTextArea\nAXRole, AXSelectedTextRange\n",
    )
    .expect("target");

    assert_eq!(target.pid, Some(4242));
    assert_eq!(target.role, "AXGroup");
    assert_eq!(target.subrole, "AXTextArea");
    assert!(target.has_attribute("AXSelectedTextRange"));
}

#[test]
fn paste_target_info_keeps_pid_when_focus_is_unavailable() {
    let target = PasteTargetInfo::from_osascript_output("4242\n\n\n\n").expect("target");

    assert_eq!(target.pid, Some(4242));
    assert_eq!(target.role, "");
    assert_eq!(target.subrole, "");
    assert!(target.attributes.is_empty());
}

#[test]
fn paste_target_info_rejects_empty_osascript_output() {
    assert!(PasteTargetInfo::from_osascript_output("").is_none());
    assert!(PasteTargetInfo::from_osascript_output("\n\n").is_none());
}

#[test]
fn paste_target_info_lists_each_attribute_once() {
    let target = PasteTargetInfo::from_osascript_output("AXGroup\n\nAXRole, AXRole ,,AXValue\r\n")
        .expect("target");
    assert_eq!(target.attributes, vec!["AXRole".to_string(), "AXValue".to_string()]);
    assert_eq!(target.pid, None);
}

#[test]
fn paste_target_info_reads_non_positive_pid_as_role() {
    let target = PasteTargetInfo::from_osascript_output("0\nAXTextArea").expect("target");
    assert_eq!(target.pid, None);
    assert_eq!(target.role, "0");
    assert_eq!(target.subrole, "AXTextArea");
}

#[test]
fn manual_accessibility_retry_uses_pid_for_unclear_target() {
    let target = pid_target(4242, "");

    assert_eq!(manual_accessibility_retry_pid(Some(&target), 100), Some(4242));
}

#[test]
fn manual_accessibility_retry_skips_existing_pasteable_target() {
    let target = paste_target("AXTextArea", "", &[]);

    assert_eq!(manual_accessibility_retry_pid(Some(&target), 100), None);
}

#[test]
fn manual_accessibility_retry_skips_own_process() {
    let target = pid_target(4242, "");

    assert_eq!(manual_accessibility_retry_pid(Some(&target), 4242), None);
}

#[test]
fn verified_paste_accepts_changed_value() {
    let before = ax_text_snapshot("hello ", 6, 0);
    let after = ax_text_snapshot("hello world", 11, 0);

    let Some(VerifiedPasteInsertion::Changed(range)) = verify_paste_insertion(&before, &after, "world")
    else {
        panic!("expected changed insertion");
    };

    assert_eq!(range.location, 6);
    assert_eq!(range.length, "world".encode_utf16().count());
}

#[test]
fn verified_paste_accepts_identical_selected_text_replacement() {
    let selected = "タイプレス";
    let before = ax_text_snapshot(selected, 0, selected.encode_utf16().count());
    let after = ax_text_snapshot(selected, selected.encode_utf16().count(), 0);

    assert!(matches!(
        verify_paste_insertion(&before, &after, selected),
        Some(VerifiedPasteInsertion::SameTextReplacement)
    ));
}

#[test]
fn verified_paste_rejects_unchanged_cursor_value() {
    let before = ax_text_snapshot("hello", 5, 0);
    let after = ax_text_snapshot("hello", 5, 0);

    assert!(verify_paste_insertion(&before, &after, "world").is_none());
}

#[test]
fn verified_paste_rejects_same_text_when_selection_did_not_move() {
    let selected = "タイプレス";
    let before = ax_text_snapshot(selected, 0, selected.encode_utf16().count());
    let after = ax_text_snapshot(selected, 0, selected.encode_utf16().count());

    assert!(verify_paste_insertion(&before, &after, selected).is_none());
}

#[test]
fn verified_paste_rejects_other_process() {
    let before = ax_text_snapshot("hello ", 6, 0);
    let mut after = ax_text_snapshot("hello world", 11, 0);
    after.pid = 1;
    assert!(verify_paste_insertion(&before, &after, "world").is_none());
}

#[test]
fn insertion_away_from_selection_is_not_the_paste() {
    let before = ax_text_snapshot("abc def", 0, 0);
    let after = ax_text_snapshot("abc dXef", 0, 0);
    assert_eq!(inserted_range_from_snapshots(&before, &after), None);
}

#[test]
fn paste_plan_follows_session_target() {
    let own = 100;
    let external_text = pid_target(4242, "AXTextArea");
    let own_focus = pid_target(own, "AXTextArea");
    assert!(!allow_own_target(Some(&external_text), own));
    assert!(allow_own_target(None, own));
    assert_eq!(
        paste_plan(Some(&external_text), Some(&own_focus), own),
        PastePlan::ActivateThenPreferred { pid: 4242 }
    );
    assert_eq!(paste_plan(Some(&external_text), None, own), PastePlan::UsePreferred);
    let web = pid_target(4242, "AXWebArea");
    assert_eq!(paste_plan(None, Some(&web), own), PastePlan::UseFocused);
    assert_eq!(paste_plan(None, None, own), PastePlan::NoTarget);
}

#[test]
fn command_keys_for_copy_and_paste() {
    assert_eq!(command_keycode("c"), Some(8));
    assert_eq!(command_keycode("v"), Some(9));
    assert_eq!(command_keycode("x"), None);
}

#[test]
fn a_paste_fails_only_when_focus_moved_to_another_app() {
    assert!(enja::paste::paste_lost_focus(Some(10), Some(11)));
    assert!(!enja::paste::paste_lost_focus(Some(10), Some(10)));
    assert!(!enja::paste::paste_lost_focus(Some(10), None));
    assert!(!enja::paste::paste_lost_focus(None, Some(11)));
}
