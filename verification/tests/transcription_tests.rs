use enja::live::VoiceMode;
use enja::transcription::{adc_token_details, adc_token_outcome, uses_google_token};
use enja::settings::{AppSettings, SpeechProfile};
use enja::transcription::{
    google_chirp3_recognize_url, google_transcript, long_audio_fallback, openai_transcript,
    recording_content, speech_request_error, transcription_route, TranscriptionRoute,
    GOOGLE_SYNC_MAX_WAV_BYTES,
};

#[test]
fn routes_follow_the_speech_profile() {
    assert_eq!(transcription_route(SpeechProfile::GoogleChirp3, false), TranscriptionRoute::GoogleChirp3);
    assert_eq!(transcription_route(SpeechProfile::GoogleChirp3, true), TranscriptionRoute::LongAudioFallback);
    assert_eq!(
        transcription_route(SpeechProfile::OpenAiGpt4oMiniTranscribe, true),
        TranscriptionRoute::OpenAiGpt4oMiniTranscribe
    );
    assert_eq!(transcription_route(SpeechProfile::GeminiAudio, false), TranscriptionRoute::GeminiAudio);
    assert_eq!(transcription_route(SpeechProfile::AppleSpeechAnalyzer, false), TranscriptionRoute::AppleSpeech);
    assert_eq!(GOOGLE_SYNC_MAX_WAV_BYTES, 10 * 1024 * 1024);
}

#[test]
fn long_audio_prefers_openai_when_a_key_is_saved() {
    assert_eq!(long_audio_fallback(&Ok("sk-1".to_string())), TranscriptionRoute::OpenAiGpt4oTranscribe);
    assert_eq!(long_audio_fallback(&Ok("  ".to_string())), TranscriptionRoute::GeminiAudio);
    assert_eq!(long_audio_fallback(&Err("not found".to_string())), TranscriptionRoute::GeminiAudio);
}

#[test]
fn recognize_url_needs_a_project() {
    let mut settings = AppSettings::default();
    settings.voice.google_cloud_project_id = "  ".to_string();
    assert_eq!(
        google_chirp3_recognize_url(&settings).unwrap_err(),
        "Google Cloud Project IDを設定してください。"
    );
    settings.voice.google_cloud_project_id = " my-project ".to_string();
    settings.voice.google_cloud_region = " us ".to_string();
    assert_eq!(
        google_chirp3_recognize_url(&settings).unwrap(),
        "https://us-speech.googleapis.com/v2/projects/my-project/locations/us/recognizers/_:recognize"
    );
}

#[test]
fn google_results_are_joined_by_line() {
    assert_eq!(
        google_transcript(&vec![Some("こんにちは".to_string()), None, Some("世界".to_string())]),
        Ok("こんにちは\n世界".to_string())
    );
    assert_eq!(google_transcript(&vec![None]), Err("文字起こし結果が空でした。".to_string()));
    assert_eq!(google_transcript(&vec![]), Err("文字起こし結果が空でした。".to_string()));
}

#[test]
fn openai_text_is_trimmed_and_required() {
    assert_eq!(openai_transcript(Some(" はい \n".to_string())), Ok("はい".to_string()));
    assert_eq!(openai_transcript(Some("  ".to_string())), Err("OpenAIの文字起こし結果が空でした。".to_string()));
    assert_eq!(openai_transcript(None), Err("OpenAIの文字起こし結果が空でした。".to_string()));
}

#[test]
fn timeouts_are_explained() {
    assert_eq!(
        speech_request_error("OpenAI", true, "ignored".to_string()),
        "OpenAIの応答がタイムアウトしました。短く録音するか、別の音声認識モデルを試してください。"
    );
    assert_eq!(speech_request_error("OpenAI", false, "connection reset".to_string()), "connection reset");
}

#[test]
fn recordings_are_sent_as_base64() {
    assert_eq!(recording_content(&b"RIFF".to_vec()), "UklGRg==");
    assert_eq!(recording_content(&vec![]), "");
    assert_eq!(recording_content(&vec![0xff, 0xfe, 0x3f, 0x10, 0x00]), "//4/EAA=");
    assert_eq!(recording_content(&b"abc".to_vec()), "YWJj");
}

#[test]
fn adc_output_gives_the_token_or_the_reason() {
    assert_eq!(adc_token_outcome(true, " ya29.x \n", "", "/usr/bin/gcloud"), Ok("ya29.x".to_string()));
    assert_eq!(
        adc_token_outcome(false, "", " Reauthentication required ", "/usr/bin/gcloud"),
        Err("Reauthentication required".to_string())
    );
    assert_eq!(
        adc_token_outcome(true, "  ", "", "/usr/bin/gcloud"),
        Err("gcloudからアクセストークンが返りませんでした。ターミナルで `/usr/bin/gcloud auth application-default login` を実行してください。".to_string())
    );
    assert_eq!(
        adc_token_details("/usr/bin/gcloud"),
        vec!["認証方式: ADC".to_string(), "gcloud: /usr/bin/gcloud".to_string()]
    );
}

#[test]
fn google_tokens_are_needed_for_google_transcription() {
    let mut settings = AppSettings::default();
    settings.voice.speech_profile = SpeechProfile::GoogleChirp3;
    assert!(uses_google_token(&settings, VoiceMode::Ask));
    settings.voice.speech_profile = SpeechProfile::OpenAiGpt4oTranscribe;
    assert!(!uses_google_token(&settings, VoiceMode::Dictation));
}

#[test]
fn service_account_claims_last_an_hour() {
    let claims = enja::transcription::service_account_claims(
        "bot@project.iam.gserviceaccount.com",
        "https://oauth2.googleapis.com/token",
        1_700_000_000,
    );
    assert_eq!(claims.iss, "bot@project.iam.gserviceaccount.com");
    assert_eq!(claims.scope, "https://www.googleapis.com/auth/cloud-platform");
    assert_eq!(claims.aud, "https://oauth2.googleapis.com/token");
    assert_eq!(claims.iat, 1_700_000_000);
    assert_eq!(claims.exp, 1_700_003_600);

    let form = enja::transcription::token_request_form("a.b.c");
    assert_eq!(
        form,
        vec![
            ("grant_type".to_string(), "urn:ietf:params:oauth:grant-type:jwt-bearer".to_string()),
            ("assertion".to_string(), "a.b.c".to_string()),
        ]
    );
}
