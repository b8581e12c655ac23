use enja::live::{
    i16_samples_to_bytes, live_transcription_provider_for_settings,
    live_transcription_provider_for_speech_profile, should_use_live_transcript,
    LiveTranscriptionProvider, VoiceMode,
};
use enja::settings::{AppSettings, SpeechProfile};

#[test]
fn only_streaming_profiles_have_a_live_provider() {
    assert_eq!(
        live_transcription_provider_for_speech_profile(SpeechProfile::AppleSpeechAnalyzer),
        Some(LiveTranscriptionProvider::AppleSpeechAnalyzer)
    );
    assert_eq!(
        live_transcription_provider_for_speech_profile(SpeechProfile::GoogleChirp3),
        Some(LiveTranscriptionProvider::GoogleChirp3)
    );
    assert_eq!(live_transcription_provider_for_speech_profile(SpeechProfile::GeminiAudio), None);
}

#[test]
fn live_transcript_only_for_dictation_in_live_modes() {
    let mut settings = AppSettings::default();
    settings.voice.speech_profile = SpeechProfile::GoogleChirp3;
    assert!(should_use_live_transcript(&settings, VoiceMode::Dictation, "speed"));
    assert!(!should_use_live_transcript(&settings, VoiceMode::Ask, "speed"));
    assert!(!should_use_live_transcript(&settings, VoiceMode::Dictation, "default"));
    settings.voice.active_mode_profile_id = "speed".to_string();
    assert_eq!(
        live_transcription_provider_for_settings(&settings, VoiceMode::Dictation),
        Some(LiveTranscriptionProvider::GoogleChirp3)
    );
    settings.voice.speech_profile = SpeechProfile::OpenAiGpt4oTranscribe;
    assert_eq!(live_transcription_provider_for_settings(&settings, VoiceMode::Dictation), None);
}

#[test]
fn samples_become_little_endian_bytes() {
    assert_eq!(i16_samples_to_bytes(&vec![1, -2, 0x1234]), vec![1, 0, 0xfe, 0xff, 0x34, 0x12]);
    assert!(i16_samples_to_bytes(&Vec::new()).is_empty());
}

#[test]
fn streaming_results_keep_final_parts_once_and_fall_back_to_interim() {
    let mut t = enja::live::StreamingTranscript::new();
    assert_eq!(
        t.finish(),
        Err("Google Speech-to-Textのライブ文字起こし結果が空でした。".to_string())
    );
    t.add_result("  こんに ", false);
    assert_eq!(t.finish(), Ok("こんに".to_string()));
    t.add_result("こんにちは", true);
    t.add_result(" こんにちは ", true);
    t.add_result("   ", true);
    t.add_result("元気", false);
    t.add_result("元気ですか", true);
    t.add_result("また", false);
    assert_eq!(t.finish(), Ok("こんにちは\n元気ですか".to_string()));
}
