use enja::audio::{
    ms_to_frame_count, protect_terminal_audio, push_voice_segment, render_voice_segments,
    voice_frame_len, VoiceSegment,
};
use enja::dictionary::{DictionaryEntry, DictionarySource};
use enja::secrets::{account_name, provider_status};
use enja::speech_setup::{
    apple_helper_exit_message, apple_transcript_from_helper, apple_speech_contextual_strings, apple_speech_setup_check, apple_status_from_helper,
    check_secret_setup, google_chirp3_missing_check, google_chirp3_token_check, speech_setup_kind,
    AppleSpeechHelperResponse, SpeechSetupKind,
};
use enja::screen_context::VoiceScreenContext;
use enja::settings::{AppSettings, SpeechProfile};
use enja::usage::{
    gemini_token_split, kept_usage_events, operation_label, retention_cutoff, usage_event_id,
    UsageService, RETENTION_MS,
};

fn response(ok: bool, status: Option<&str>, authorization: Option<&str>) -> AppleSpeechHelperResponse {
    AppleSpeechHelperResponse {
        ok,
        status: status.map(str::to_string),
        supported: None,
        authorization: authorization.map(str::to_string),
        reason: None,
        error: None,
        details: None,
        transcript: None,
    }
}

#[test]
fn provider_status_counts_only_non_blank_keys() {
    let status = provider_status(
        &Ok("key".to_string()),
        &Ok("   ".to_string()),
        &Err("missing".to_string()),
        &Ok("{}".to_string()),
    );
    assert!(status.gemini);
    assert!(!status.openai);
    assert!(!status.deepgram);
    assert!(status.google_service_account);
}

#[test]
fn account_names_are_scoped_to_the_service() {
    assert_eq!(account_name("gemini").unwrap(), "com.aimhack.enja.gemini");
    assert_eq!(account_name("googleServiceAccount").unwrap(), "com.aimhack.enja.googleServiceAccount");
    assert_eq!(account_name("other").unwrap_err(), "未知のプロバイダーです。");
}

#[test]
fn secret_setup_reports_saved_or_missing_key() {
    let ok = check_secret_setup("Gemini APIキー", "ok", "missing", &Ok("k".to_string()));
    assert!(ok.ok);
    assert_eq!(ok.message, "ok");
    assert_eq!(ok.details, vec!["Gemini APIキー: 保存済み".to_string()]);
    let missing = check_secret_setup("Gemini APIキー", "ok", "missing", &Err("e".to_string()));
    assert!(!missing.ok);
    assert_eq!(missing.details, vec!["Gemini APIキー: 未保存".to_string()]);
}

#[test]
fn google_setup_lists_missing_fields_then_token_result() {
    let mut settings = AppSettings::default();
    settings.voice.google_cloud_project_id = " ".to_string();
    settings.voice.google_cloud_region = String::new();
    let check = google_chirp3_missing_check(&settings).expect("missing");
    assert!(!check.ok);
    assert_eq!(check.message, "未入力の設定があります: Google Cloud Project ID, Google Cloudリージョン");

    settings.voice.google_cloud_project_id = " proj ".to_string();
    settings.voice.google_cloud_region = "asia-northeast1".to_string();
    assert!(google_chirp3_missing_check(&settings).is_none());
    let ok = google_chirp3_token_check(&settings, Ok(vec!["token".to_string()]));
    assert!(ok.ok);
    assert_eq!(ok.details[0], "Project ID: proj / リージョン: asia-northeast1");
    assert_eq!(ok.details[1], "token");
    assert_eq!(ok.details.len(), 3);
    let failed = google_chirp3_token_check(&settings, Err("no token".to_string()));
    assert!(!failed.ok);
    assert_eq!(failed.message, "no token");
}

#[test]
fn apple_status_messages_follow_model_and_permission() {
    let ready = apple_status_from_helper(response(true, Some("installed"), Some("authorized")));
    assert!(ready.supported);
    assert_eq!(ready.message, "Apple SpeechAnalyzer日本語モデルは利用可能です。");
    assert!(apple_speech_setup_check(&ready).ok);

    let unsupported = apple_status_from_helper(response(true, Some("unsupported"), None));
    assert!(!unsupported.supported);
    assert_eq!(unsupported.authorization, "unknown");
    assert_eq!(unsupported.message, "このMacではApple SpeechAnalyzerを利用できません。");

    let failed = apple_status_from_helper(response(false, None, None));
    assert_eq!(failed.message, "Apple SpeechAnalyzerの状態確認に失敗しました。");
    assert!(!apple_speech_setup_check(&failed).ok);

    let mut with_reason = response(true, Some("supported"), Some("denied"));
    with_reason.error = Some("no model".to_string());
    with_reason.details = Some(vec!["d".to_string()]);
    let status = apple_status_from_helper(with_reason);
    assert_eq!(status.details, vec!["no model".to_string(), "d".to_string()]);
    assert_eq!(status.message, "Apple SpeechAnalyzer日本語モデルは未インストールです。");
    let check = apple_speech_setup_check(&status);
    assert_eq!(check.details[0], "モデル状態: supported");
    assert_eq!(check.details[1], "音声認識権限: denied");
    assert_eq!(check.details.len(), 4);
}

#[test]
fn setup_kind_per_profile() {
    assert!(matches!(speech_setup_kind(SpeechProfile::GoogleChirp3), SpeechSetupKind::GoogleChirp3));
    assert!(matches!(speech_setup_kind(SpeechProfile::AppleSpeechAnalyzer), SpeechSetupKind::AppleSpeech));
    match speech_setup_kind(SpeechProfile::GeminiAudio) {
        SpeechSetupKind::Secret { provider, .. } => assert_eq!(provider, "gemini"),
        _ => panic!("expected a key check"),
    }
}

#[test]
fn apple_contextual_strings_take_short_enabled_entries_then_terms() {
    let entry = |p: &str, enabled: bool| DictionaryEntry {
        id: p.to_string(),
        preferred: p.to_string(),
        readings: Vec::new(),
        aliases: Vec::new(),
        corrections: Vec::new(),
        enabled,
        source: DictionarySource::Manual,
        created_at: 1,
        updated_at: 1,
    };
    let long = "x".repeat(41);
    let entries = vec![entry(" Enja ", true), entry("off", false), entry(&long, true)];
    let context = VoiceScreenContext {
        visible_text: "ENJA kubectl".to_string(),
        ..VoiceScreenContext::default()
    };
    assert_eq!(
        apple_speech_contextual_strings(&entries, &context),
        vec!["Enja".to_string(), "kubectl".to_string()]
    );
}

#[test]
fn usage_labels_ids_and_retention() {
    assert_eq!(operation_label(UsageService::GeminiTranslation), "翻訳");
    assert_eq!(usage_event_id(12, 3), "usage-12-3");
    assert_eq!(retention_cutoff(5), 0);
    assert_eq!(retention_cutoff(RETENTION_MS + 10), 10);
}

#[test]
fn prunes_events_older_than_retention_window() {
    let now = RETENTION_MS + 1_000;
    let timestamps = vec![now - RETENTION_MS - 1, now, now - RETENTION_MS];
    assert_eq!(kept_usage_events(&timestamps, now), vec![1, 2]);
}

#[test]
fn gemini_tokens_split_into_text_and_audio() {
    let split = gemini_token_split(2_000, Some(1_000));
    assert_eq!(split.text_input_tokens, 1_000);
    assert_eq!(split.audio_tokens, 1_000);
    assert!(!split.long_context);
    let capped = gemini_token_split(100, Some(500));
    assert_eq!(capped.audio_tokens, 100);
    assert_eq!(capped.text_input_tokens, 0);
    assert!(gemini_token_split(200_001, None).long_context);
}

#[test]
fn audio_frames_and_segments() {
    assert_eq!(voice_frame_len(16_000, 1), 320);
    assert_eq!(voice_frame_len(10, 1), 1);
    assert_eq!(ms_to_frame_count(300), 15);
    assert_eq!(ms_to_frame_count(310), 16);

    let mut segments = Vec::new();
    push_voice_segment(&mut segments, 0, 2, 4, 3);
    assert!(segments.is_empty());
    push_voice_segment(&mut segments, 0, 5, 4, 3);
    push_voice_segment(&mut segments, 7, 12, 4, 3);
    assert_eq!(segments, vec![VoiceSegment { start_frame: 0, end_frame: 12 }]);
    push_voice_segment(&mut segments, 20, 30, 4, 3);
    assert_eq!(segments.len(), 2);
    protect_terminal_audio(&mut segments, 33, 5);
    assert_eq!(segments[1].end_frame, 33);

    let samples: Vec<i16> = (0..10).collect();
    let kept = render_voice_segments(
        &samples,
        2,
        &vec![
            VoiceSegment { start_frame: 0, end_frame: 1 },
            VoiceSegment { start_frame: 3, end_frame: 9 },
        ],
    );
    assert_eq!(kept, vec![0, 1, 6, 7, 8, 9]);
}

fn helper_answer(ok: bool, transcript: Option<&str>, error: Option<&str>, reason: Option<&str>) -> AppleSpeechHelperResponse {
    AppleSpeechHelperResponse {
        ok,
        status: None,
        supported: None,
        authorization: None,
        reason: reason.map(str::to_string),
        error: error.map(str::to_string),
        details: None,
        transcript: transcript.map(str::to_string),
    }
}

#[test]
fn apple_live_transcript_is_trimmed_and_required() {
    assert_eq!(
        apple_transcript_from_helper(helper_answer(true, Some("  こんにちは \n"), None, None)),
        Ok("こんにちは".to_string())
    );
    assert_eq!(
        apple_transcript_from_helper(helper_answer(true, Some("   "), None, None)),
        Err("Apple SpeechAnalyzerのライブ文字起こし結果が空でした。".to_string())
    );
    assert_eq!(
        apple_transcript_from_helper(helper_answer(true, None, None, None)),
        Err("Apple SpeechAnalyzerのライブ文字起こし結果が空でした。".to_string())
    );
    assert_eq!(
        apple_transcript_from_helper(helper_answer(false, Some("x"), Some("boom"), Some("why"))),
        Err("boom".to_string())
    );
    assert_eq!(
        apple_transcript_from_helper(helper_answer(false, None, None, Some("why"))),
        Err("why".to_string())
    );
    assert_eq!(
        apple_transcript_from_helper(helper_answer(false, None, None, None)),
        Err("Apple SpeechAnalyzer helperが失敗しました。".to_string())
    );
}

#[test]
fn apple_helper_exit_message_prefers_stderr() {
    assert_eq!(apple_helper_exit_message("out", "err", "exit status: 1"), "err");
    assert_eq!(apple_helper_exit_message("out", "", "exit status: 1"), "out");
    assert_eq!(
        apple_helper_exit_message("", "", "exit status: 1"),
        "Apple SpeechAnalyzer helperが失敗しました: exit status: 1"
    );
}
