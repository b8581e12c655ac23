use enja::live::{LiveTranscriptionProvider, VoiceMode};
use enja::settings::AppSettings;
use enja::voice_session::{
    paste_outcome, processing_message, profile_snapshot_for_id, profile_snapshot_for_mode, state_profile_fields,
    transcript_source, CancelDecision, LiveTranscript, SessionState, StopDecision,
    TranscriptSource, VoiceManager, VoiceModeProfileSnapshot,
};

fn snapshot(formatting_enabled: bool) -> VoiceModeProfileSnapshot {
    VoiceModeProfileSnapshot {
        id: "speed".to_string(),
        name: "スピード".to_string(),
        formatting_enabled,
    }
}

#[test]
fn dictation_starts_in_the_active_voice_mode() {
    let mut settings = AppSettings::default();
    settings.voice.active_mode_profile_id = "casual".to_string();
    let mut manager = VoiceManager::new();
    assert!(!manager.is_active());
    let notice = manager.start_session(&settings.voice, VoiceMode::Dictation, 7).unwrap();
    assert_eq!(notice.mode, VoiceMode::Dictation);
    assert_eq!(notice.message, "録音を準備しています…");
    assert_eq!(notice.mode_profile.as_ref().unwrap().id, "casual");
    assert!(matches!(
        &manager.active,
        Some(SessionState::Starting { mode: VoiceMode::Dictation, mode_profile_id, token: 7 })
            if mode_profile_id == "casual"
    ));
    assert!(manager.is_active());
}

#[test]
fn a_second_start_changes_nothing() {
    let settings = AppSettings::default();
    let mut manager = VoiceManager::new();
    assert!(manager.start_session(&settings.voice, VoiceMode::Ask, 1).is_some());
    assert!(manager.start_session(&settings.voice, VoiceMode::Dictation, 2).is_none());
    assert!(matches!(
        &manager.active,
        Some(SessionState::Starting { mode: VoiceMode::Ask, mode_profile_id, token: 1 })
            if mode_profile_id.is_empty()
    ));
}

#[test]
fn stopping_a_preparing_session_cancels_it() {
    let settings = AppSettings::default();
    let mut manager = VoiceManager::new();
    manager.start_session(&settings.voice, VoiceMode::Dictation, 3);
    assert!(matches!(manager.stop_session(4), StopDecision::CancelStart { token: 3 }));
    assert!(manager.active.is_none());
    assert!(matches!(manager.stop_session(5), StopDecision::Nothing));
}

#[test]
fn stopping_a_recording_hands_it_to_processing() {
    let settings = AppSettings::default();
    let mut manager = VoiceManager::new();
    manager.start_session(&settings.voice, VoiceMode::Dictation, 3);
    assert_eq!(manager.commit_start(VoiceMode::Dictation, 3, false).as_deref(), Some("default"));
    match manager.stop_session(9) {
        StopDecision::Finish { mode, mode_profile_id } => {
            assert_eq!(mode, VoiceMode::Dictation);
            assert_eq!(mode_profile_id, "default");
        }
        other => panic!("unexpected {other:?}"),
    }
    assert!(matches!(manager.active, Some(SessionState::Processing { token: 9 })));
    assert!(matches!(manager.stop_session(10), StopDecision::Nothing));
    assert!(!manager.clear_processing_session(3));
    assert!(manager.is_active());
    assert!(manager.clear_processing_session(9));
    assert!(!manager.is_active());
}

#[test]
fn a_stale_start_task_cannot_commit() {
    let settings = AppSettings::default();
    let mut manager = VoiceManager::new();
    manager.start_session(&settings.voice, VoiceMode::Dictation, 3);
    assert_eq!(manager.commit_start(VoiceMode::Dictation, 2, false), None);
    assert_eq!(manager.commit_start(VoiceMode::Ask, 3, false), None);
    assert_eq!(manager.commit_start(VoiceMode::Dictation, 3, true), None);
    assert!(!manager.clear_starting_session(2));
    assert!(manager.clear_starting_session(3));
    assert!(manager.active.is_none());
}

#[test]
fn cancel_always_ends_the_session() {
    let settings = AppSettings::default();
    let mut manager = VoiceManager::new();
    assert!(matches!(manager.cancel_session(), CancelDecision::Nothing));
    manager.start_session(&settings.voice, VoiceMode::Dictation, 1);
    assert!(matches!(manager.cancel_session(), CancelDecision::CancelStart { token: 1 }));
    manager.start_session(&settings.voice, VoiceMode::Dictation, 2);
    manager.commit_start(VoiceMode::Dictation, 2, false);
    assert!(matches!(manager.cancel_session(), CancelDecision::CancelRecording));
    assert!(manager.polish_selection(5));
    assert!(!manager.polish_selection(6));
    assert!(matches!(manager.cancel_session(), CancelDecision::CancelProcessing { token: 5 }));
    assert!(manager.active.is_none());
}

#[test]
fn only_dictation_switches_voice_mode() {
    let settings = AppSettings::default();
    let mut manager = VoiceManager::new();
    manager.start_session(&settings.voice, VoiceMode::Dictation, 1);
    assert_eq!(manager.cycle_target().as_deref(), Some("default"));
    assert_eq!(manager.apply_cycled_profile("speed".to_string()), Some("preparing"));
    manager.commit_start(VoiceMode::Dictation, 1, false);
    assert_eq!(manager.cycle_target().as_deref(), Some("speed"));
    assert_eq!(manager.apply_cycled_profile("casual".to_string()), Some("recording"));
    assert_eq!(manager.cycle_target().as_deref(), Some("casual"));

    let mut ask = VoiceManager::new();
    ask.start_session(&settings.voice, VoiceMode::Ask, 1);
    assert_eq!(ask.cycle_target(), None);
    assert_eq!(ask.apply_cycled_profile("speed".to_string()), None);
}

#[test]
fn snapshots_fall_back_to_the_default_mode() {
    let settings = AppSettings::default();
    let s = profile_snapshot_for_id(&settings.voice, "missing").unwrap();
    assert_eq!(s.id, "default");
    assert!(s.formatting_enabled);
    let speed = profile_snapshot_for_mode(&settings.voice, VoiceMode::Dictation, "speed").unwrap();
    assert_eq!(speed.name, "スピード");
    assert!(!speed.formatting_enabled);
    assert!(profile_snapshot_for_mode(&settings.voice, VoiceMode::Ask, "speed").is_none());
    let (id, name) = state_profile_fields(Some(speed));
    assert_eq!(id.as_deref(), Some("speed"));
    assert_eq!(name.as_deref(), Some("スピード"));
    assert_eq!(state_profile_fields(None), (None, None));
}

#[test]
fn processing_message_depends_on_formatting() {
    assert_eq!(
        processing_message(VoiceMode::Dictation, &Some(snapshot(false))),
        "文字起こしを出力しています…"
    );
    assert_eq!(processing_message(VoiceMode::Dictation, &Some(snapshot(true))), "音声を整形しています…");
    assert_eq!(processing_message(VoiceMode::Ask, &Some(snapshot(false))), "音声を整形しています…");
    assert_eq!(processing_message(VoiceMode::Dictation, &None), "音声を整形しています…");
}

#[test]
fn live_transcript_is_used_only_when_it_has_text() {
    let google = Some(LiveTranscript {
        provider: LiveTranscriptionProvider::GoogleChirp3,
        result: Ok(" こんにちは ".to_string()),
    });
    match transcript_source(true, &google) {
        TranscriptSource::Live { text, record_google_usage } => {
            assert_eq!(text, " こんにちは ");
            assert!(record_google_usage);
        }
        TranscriptSource::Batch => panic!("expected the live transcript"),
    }
    assert!(matches!(transcript_source(false, &google), TranscriptSource::Batch));
    let apple = Some(LiveTranscript {
        provider: LiveTranscriptionProvider::AppleSpeechAnalyzer,
        result: Ok("はい".to_string()),
    });
    assert!(matches!(
        transcript_source(true, &apple),
        TranscriptSource::Live { record_google_usage: false, .. }
    ));
    let blank = Some(LiveTranscript {
        provider: LiveTranscriptionProvider::GoogleChirp3,
        result: Ok("   ".to_string()),
    });
    assert!(matches!(transcript_source(true, &blank), TranscriptSource::Batch));
    let failed = Some(LiveTranscript {
        provider: LiveTranscriptionProvider::GoogleChirp3,
        result: Err("timeout".to_string()),
    });
    assert!(matches!(transcript_source(true, &failed), TranscriptSource::Batch));
    assert!(matches!(transcript_source(true, &None), TranscriptSource::Batch));
}

#[test]
fn blank_selection_cannot_be_polished() {
    assert_eq!(
        enja::voice_session::polish_selection_error("  \n"),
        Some("テキストを選択してから実行してください。".to_string())
    );
    assert_eq!(enja::voice_session::polish_selection_error("こんにちは"), None);
}

#[test]
fn paste_outcome_reports_confirmed_and_unconfirmed_pastes() {
    let done = paste_outcome("こんにちは".to_string(), true);
    assert_eq!(done.text, "こんにちは");
    assert!(done.inserted);
    assert!(done.reason.is_none());
    assert!(done.fallback_message.is_none());

    let shown = paste_outcome("こんにちは".to_string(), false);
    assert_eq!(shown.text, "こんにちは");
    assert!(!shown.inserted);
    assert_eq!(shown.reason.as_deref(), Some("カーソル位置への貼り付けを確認できませんでした。"));
    assert_eq!(
        shown.fallback_message.as_deref(),
        Some("カーソル位置への貼り付けを確認できなかったため、コピー用に表示しています。")
    );
}
