use enja::dictionary::{DictionaryEntry, DictionarySource};
use enja::live::VoiceMode;
use enja::paste::PasteTargetInfo;
use enja::screen_context::{
    clamp_chars, clamp_chars_from_end, finalization_screen_context_section, focused_text_context,
    normalize_context_block, normalize_context_line, paste_target_role_label,
    screen_context_terms, should_capture_voice_screen_context_ocr,
    transcription_contextual_phrases, transcription_prompt_context, VoiceScreenContext,
    VoiceScreenContextOcr,
};
use enja::settings::{AppSettings, SpeechProfile};
use enja::text_diff::TextRange;

fn entry(preferred: &str) -> DictionaryEntry {
    DictionaryEntry {
        id: "1".to_string(),
        preferred: preferred.to_string(),
        readings: Vec::new(),
        aliases: Vec::new(),
        corrections: Vec::new(),
        enabled: true,
        source: DictionarySource::Manual,
        created_at: 1,
        updated_at: 1,
    }
}

#[test]
fn screen_context_terms_extracts_code_and_product_terms() {
    let context = VoiceScreenContext {
        app_name: Some("Cursor".to_string()),
        window_title: Some("main.ts - enja".to_string()),
        visible_text: "GPT-4o kubectl src-tauri/voice.rs Typeless AquaVoice 12345".to_string(),
        ..VoiceScreenContext::default()
    };

    let terms = screen_context_terms(&context);

    assert!(terms.contains(&"Cursor".to_string()));
    assert!(terms.contains(&"main.ts".to_string()));
    assert!(terms.contains(&"GPT-4o".to_string()));
    assert!(terms.contains(&"kubectl".to_string()));
    assert!(terms.contains(&"src-tauri/voice.rs".to_string()));
    assert!(!terms.contains(&"12345".to_string()));
}

#[test]
fn finalization_screen_context_section_labels_context_sources() {
    let context = VoiceScreenContext {
        app_name: Some("Slack".to_string()),
        window_title: Some("Acme".to_string()),
        focused_before: "了解しました。".to_string(),
        focused_after: "よろしくお願いします。".to_string(),
        ..VoiceScreenContext::default()
    };

    let section = finalization_screen_context_section(&context);

    assert!(section.contains("アプリ: Slack"));
    assert!(section.contains("ウィンドウ: Acme"));
    assert!(section.contains("カーソル前"));
    assert!(section.contains("カーソル後"));
}

#[test]
fn screen_context_ocr_policy_skips_speed_mode_when_live_transcript_is_used() {
    let mut settings = AppSettings::default();
    settings.voice.active_mode_profile_id = "speed".to_string();

    assert!(!should_capture_voice_screen_context_ocr(&settings, VoiceMode::Dictation, "speed"));
}

#[test]
fn screen_context_ocr_policy_keeps_speed_mode_for_batch_asr_hints() {
    let mut settings = AppSettings::default();
    settings.voice.active_mode_profile_id = "speed".to_string();
    settings.voice.speech_profile = SpeechProfile::OpenAiGpt4oTranscribe;

    assert!(should_capture_voice_screen_context_ocr(&settings, VoiceMode::Dictation, "speed"));
}

#[test]
fn screen_context_ocr_policy_keeps_finalized_voice_flows() {
    let settings = AppSettings::default();

    assert!(should_capture_voice_screen_context_ocr(&settings, VoiceMode::Dictation, "default"));
    assert!(should_capture_voice_screen_context_ocr(&settings, VoiceMode::Ask, ""));
}

#[test]
fn screen_context_ocr_policy_respects_disabled_settings() {
    let mut settings = AppSettings::default();
    settings.voice.screen_context_ocr_enabled = false;
    assert!(!should_capture_voice_screen_context_ocr(&settings, VoiceMode::Ask, ""));
}

#[test]
fn terms_are_unique_ignoring_case_and_trimmed_of_punctuation() {
    let context = VoiceScreenContext {
        visible_text: "Typeless, typeless TYPELESS. --flag-- a 7 x".to_string(),
        ..VoiceScreenContext::default()
    };
    let terms = screen_context_terms(&context);
    assert_eq!(terms, vec!["Typeless".to_string(), "flag".to_string()]);
}

#[test]
fn empty_context_has_no_section_and_no_terms() {
    let context = VoiceScreenContext::default();
    assert!(context.is_empty());
    assert_eq!(finalization_screen_context_section(&context), "");
    assert!(screen_context_terms(&context).is_empty());
}

#[test]
fn merge_ocr_fills_missing_names_and_appends_details() {
    let mut context = VoiceScreenContext {
        app_name: Some("Slack".to_string()),
        details: vec!["ax".to_string()],
        ..VoiceScreenContext::default()
    };
    context.merge_ocr(VoiceScreenContextOcr {
        app_name: Some("Other".to_string()),
        window_title: Some("Inbox".to_string()),
        text: "読んだ文字".to_string(),
        details: vec!["ocr".to_string()],
    });
    assert_eq!(context.app_name.as_deref(), Some("Slack"));
    assert_eq!(context.window_title.as_deref(), Some("Inbox"));
    assert_eq!(context.ocr_text, "読んだ文字");
    assert_eq!(context.details, vec!["ax".to_string(), "ocr".to_string()]);
}

#[test]
fn contextual_phrases_merge_dictionary_and_screen_terms() {
    let context = VoiceScreenContext {
        visible_text: "kubectl Typeless".to_string(),
        ..VoiceScreenContext::default()
    };
    let phrases = transcription_contextual_phrases(&vec![entry("typeless")], &context, 10);
    assert_eq!(phrases, vec!["typeless".to_string(), "kubectl".to_string()]);
    let limited = transcription_contextual_phrases(&vec![entry("typeless")], &context, 1);
    assert_eq!(limited, vec!["typeless".to_string()]);
}

#[test]
fn prompt_context_lists_dictionary_then_hint_terms() {
    let context = VoiceScreenContext {
        app_name: Some("Cursor".to_string()),
        ..VoiceScreenContext::default()
    };
    let text = transcription_prompt_context(&vec![entry("岩佐")], &context);
    assert_eq!(text, "- 岩佐\n画面文脈から抽出したヒント語（聞こえた場合だけ使用）:\n- Cursor");
    assert_eq!(transcription_prompt_context(&Vec::new(), &VoiceScreenContext::default()), "");
}

#[test]
fn normalizing_and_clamping_text() {
    assert_eq!(normalize_context_line("  a \t b  "), "a b");
    assert_eq!(normalize_context_block(" a  b \r\n\n  \nc\n"), "a b\nc");
    assert_eq!(clamp_chars("あいうえお", 3), "あいう");
    assert_eq!(clamp_chars("abc", 5), "abc");
    assert_eq!(clamp_chars_from_end("あいうえお", 2), "えお");
}

#[test]
fn role_label_joins_distinct_role_and_subrole() {
    let mut target = PasteTargetInfo {
        pid: None,
        role: " AXTextArea ".to_string(),
        subrole: "AXSearchField".to_string(),
        attributes: Vec::new(),
    };
    assert_eq!(paste_target_role_label(&target).as_deref(), Some("AXTextArea / AXSearchField"));
    target.subrole = "AXTextArea".to_string();
    assert_eq!(paste_target_role_label(&target).as_deref(), Some("AXTextArea"));
    target.role = String::new();
    target.subrole = " ".to_string();
    assert_eq!(paste_target_role_label(&target), None);
}

#[test]
fn focused_text_context_splits_around_selection() {
    let value = "前の文🙂選択後ろ";
    let range = TextRange {
        location: "前の文🙂".encode_utf16().count(),
        length: "選択".encode_utf16().count(),
    };
    let (before, selection, after) = focused_text_context(value, range);
    assert_eq!(before, "前の文🙂");
    assert_eq!(selection, "選択");
    assert_eq!(after, "後ろ");
}
