//! Which service transcribes a recording, the request pieces that do not
//! depend on the network, and what is made of the services' answers.
use vstd::prelude::*;

use crate::live::{live_provider_for, live_transcription_provider_for_settings, LiveTranscriptionProvider, VoiceMode};
use crate::settings::{AppSettings, SpeechProfile};
use crate::text::{
    append_chars, chars_of, is_blank, is_blank_str, join, join_chars, owned, string_from_chars,
    trim, trim_chars, trim_str, vviews,
};

verus! {

/// The service a recording goes to.
#[derive(Debug, Clone, Copy, PartialEq, Eq, Structural)]
pub enum TranscriptionRoute {
    GoogleChirp3,
    /// Google's synchronous recognition refuses the recording: OpenAI if a key
    /// is saved, else Gemini.
    LongAudioFallback,
    OpenAiGpt4oTranscribe,
    OpenAiGpt4oMiniTranscribe,
    GeminiAudio,
    AppleSpeech,
}

/// The route for the speech profile; `google_too_long` says the recording
/// is over a minute or over 10 MB.
pub open spec fn route_for(profile: SpeechProfile, google_too_long: bool) -> TranscriptionRoute {
    match profile {
        SpeechProfile::GoogleChirp3 => if google_too_long {
            TranscriptionRoute::LongAudioFallback
        } else {
            TranscriptionRoute::GoogleChirp3
        },
        SpeechProfile::OpenAiGpt4oTranscribe => TranscriptionRoute::OpenAiGpt4oTranscribe,
        SpeechProfile::OpenAiGpt4oMiniTranscribe => TranscriptionRoute::OpenAiGpt4oMiniTranscribe,
        SpeechProfile::GeminiAudio => TranscriptionRoute::GeminiAudio,
        SpeechProfile::AppleSpeechAnalyzer => TranscriptionRoute::AppleSpeech,
    }
}

pub fn transcription_route(profile: SpeechProfile, google_too_long: bool) -> (r: TranscriptionRoute)
    ensures
        r == route_for(profile, google_too_long),
{
    match profile {
        SpeechProfile::GoogleChirp3 => if google_too_long {
            TranscriptionRoute::LongAudioFallback
        } else {
            TranscriptionRoute::GoogleChirp3
        },
        SpeechProfile::OpenAiGpt4oTranscribe => TranscriptionRoute::OpenAiGpt4oTranscribe,
        SpeechProfile::OpenAiGpt4oMiniTranscribe => TranscriptionRoute::OpenAiGpt4oMiniTranscribe,
        SpeechProfile::GeminiAudio => TranscriptionRoute::GeminiAudio,
        SpeechProfile::AppleSpeechAnalyzer => TranscriptionRoute::AppleSpeech,
    }
}

/// The largest recording, in bytes, that Google's synchronous recognition takes.
pub const GOOGLE_SYNC_MAX_WAV_BYTES: usize = 10485760;

/// A long recording goes to OpenAI when its key lookup found a key that is
/// not blank, else to Gemini.
pub fn long_audio_fallback(openai_key: &Result<String, String>) -> (r: TranscriptionRoute)
    ensures
        (openai_key matches Ok(k) && !is_blank(k@)) ==> r == TranscriptionRoute::OpenAiGpt4oTranscribe,
        !(openai_key matches Ok(k) && !is_blank(k@)) ==> r == TranscriptionRoute::GeminiAudio,
{
    match openai_key {
        Ok(k) => if is_blank_str(k.as_str()) {
            TranscriptionRoute::GeminiAudio
        } else {
            TranscriptionRoute::OpenAiGpt4oTranscribe
        },
        Err(_) => TranscriptionRoute::GeminiAudio,
    }
}

pub open spec fn missing_project_message() -> Seq<char> {
    "Google Cloud Project IDを設定してください。"@
}

/// The recognizer endpoint for the project and region (both trimmed).
pub open spec fn recognize_url(project: Seq<char>, region: Seq<char>) -> Seq<char> {
    "https://"@ + region + "-speech.googleapis.com/v2/projects/"@ + project + "/locations/"@ + region
        + "/recognizers/_:recognize"@
}

/// Google's recognize endpoint for the settings; the project must be set.
pub fn google_chirp3_recognize_url(settings: &AppSettings) -> (r: Result<String, String>)
    ensures
        is_blank(settings.voice.google_cloud_project_id@) ==> (r matches Err(e) && e@
            == missing_project_message()),
        !is_blank(settings.voice.google_cloud_project_id@) ==> (r matches Ok(u) && u@ == recognize_url(
            trim(settings.voice.google_cloud_project_id@),
            trim(settings.voice.google_cloud_region@),
        )),
{
    if is_blank_str(settings.voice.google_cloud_project_id.as_str()) {
        return Err(owned("Google Cloud Project IDを設定してください。"));
    }
    let project = chars_of(trim_str(settings.voice.google_cloud_project_id.as_str()).as_str());
    let region = chars_of(trim_str(settings.voice.google_cloud_region.as_str()).as_str());
    let mut v = chars_of("https://");
    append_chars(&mut v, &region);
    let a = chars_of("-speech.googleapis.com/v2/projects/");
    append_chars(&mut v, &a);
    append_chars(&mut v, &project);
    let b = chars_of("/locations/");
    append_chars(&mut v, &b);
    append_chars(&mut v, &region);
    let c = chars_of("/recognizers/_:recognize");
    append_chars(&mut v, &c);
    assert(v@ =~= recognize_url(
        trim(settings.voice.google_cloud_project_id@),
        trim(settings.voice.google_cloud_region@),
    ));
    Ok(string_from_chars(&v))
}

/// The transcripts present, in order.
pub open spec fn present(ts: Seq<Option<String>>) -> Seq<Seq<char>>
    decreases ts.len(),
{
    if ts.len() == 0 {
        Seq::empty()
    } else {
        match ts.last() {
            Some(t) => present(ts.drop_last()).push(t@),
            None => present(ts.drop_last()),
        }
    }
}

pub open spec fn empty_transcript_message() -> Seq<char> {
    "文字起こし結果が空でした。"@
}

/// Google's answer: the first alternative's transcript of each result (those
/// that have one), one per line; an answer without text is an error.
pub fn google_transcript(first_alternatives: &Vec<Option<String>>) -> (r: Result<String, String>)
    ensures
        is_blank(join(present(first_alternatives@), "\n"@)) ==> (r matches Err(e) && e@
            == empty_transcript_message()),
        !is_blank(join(present(first_alternatives@), "\n"@)) ==> (r matches Ok(t) && t@ == join(
            present(first_alternatives@),
            "\n"@,
        )),
{
    let mut parts: Vec<Vec<char>> = Vec::new();
    let mut i: usize = 0;
    while i < first_alternatives.len()
        invariant
            0 <= i <= first_alternatives.len(),
            vviews(parts@) == present(first_alternatives@.take(i as int)),
        decreases first_alternatives.len() - i,
    {
        assert(first_alternatives@.take(i + 1).drop_last() =~= first_alternatives@.take(i as int));
        match &first_alternatives[i] {
            Some(t) => {
                let ghost before = vviews(parts@);
                parts.push(chars_of(t.as_str()));
                assert(vviews(parts@) =~= before.push(t@));
            },
            None => {},
        }
        i = i + 1;
    }
    assert(first_alternatives@.take(first_alternatives.len() as int) =~= first_alternatives@);
    let sep = chars_of("\n");
    proof {
        reveal_strlit("\n");
    }
    let joined = join_chars(&parts, &sep);
    let out = string_from_chars(&joined);
    if is_blank_str(out.as_str()) {
        Err(owned("文字起こし結果が空でした。"))
    } else {
        Ok(out)
    }
}

pub open spec fn empty_openai_message() -> Seq<char> {
    "OpenAIの文字起こし結果が空でした。"@
}

/// OpenAI's answer: its text, trimmed; missing or blank text is an error.
pub fn openai_transcript(text: Option<String>) -> (r: Result<String, String>)
    ensures
        match text {
            Some(t) => if trim(t@).len() > 0 {
                r matches Ok(x) && x@ == trim(t@)
            } else {
                r matches Err(e) && e@ == empty_openai_message()
            },
            None => r matches Err(e) && e@ == empty_openai_message(),
        },
{
    match text {
        Some(t) => {
            let v = chars_of(t.as_str());
            let trimmed = trim_chars(&v);
            if trimmed.len() > 0 {
                Ok(string_from_chars(&trimmed))
            } else {
                Err(owned("OpenAIの文字起こし結果が空でした。"))
            }
        },
        None => Err(owned("OpenAIの文字起こし結果が空でした。")),
    }
}

/// A failed request: a timeout is explained, anything else reported as is.
pub open spec fn request_error_text(provider: Seq<char>, is_timeout: bool, error_text: Seq<char>) -> Seq<char> {
    if is_timeout {
        provider + "の応答がタイムアウトしました。短く録音するか、別の音声認識モデルを試してください。"@
    } else {
        error_text
    }
}

pub fn speech_request_error(provider: &str, is_timeout: bool, error_text: String) -> (r: String)
    ensures
        r@ == request_error_text(provider@, is_timeout, error_text@),
{
    if is_timeout {
        let mut v = chars_of(provider);
        let tail = chars_of("の応答がタイムアウトしました。短く録音するか、別の音声認識モデルを試してください。");
        append_chars(&mut v, &tail);
        string_from_chars(&v)
    } else {
        error_text
    }
}

/// The character of the standard base64 alphabet for a value below 64:
/// `A`-`Z`, `a`-`z`, `0`-`9`, `+` and `/`.
pub open spec fn base64_char(v: int) -> char {
    if v < 26 {
        ((65 + v) as u32) as char
    } else if v < 52 {
        ((97 + v - 26) as u32) as char
    } else if v < 62 {
        ((48 + v - 52) as u32) as char
    } else if v == 62 {
        '+'
    } else {
        '/'
    }
}

/// The standard base64 text of some bytes, padded with `=` (RFC 4648):
/// each group of three bytes gives four characters, and a last group of
/// one or two bytes gives two or three characters and the padding.
pub open spec fn standard_base64(bytes: Seq<u8>) -> Seq<char>
    decreases bytes.len(),
{
    if bytes.len() == 0 {
        Seq::empty()
    } else if bytes.len() == 1 {
        let a = bytes[0] as int;
        seq![base64_char(a / 4), base64_char((a % 4) * 16), '=', '=']
    } else if bytes.len() == 2 {
        let a = bytes[0] as int;
        let b = bytes[1] as int;
        seq![base64_char(a / 4), base64_char((a % 4) * 16 + b / 16), base64_char((b % 16) * 4), '=']
    } else {
        let a = bytes[0] as int;
        let b = bytes[1] as int;
        let c = bytes[2] as int;
        seq![
            base64_char(a / 4),
            base64_char((a % 4) * 16 + b / 16),
            base64_char((b % 16) * 4 + c / 64),
            base64_char(c % 64),
        ] + standard_base64(bytes.subrange(3, bytes.len() as int))
    }
}

/// `base64::engine::general_purpose::STANDARD.encode`: the padded standard
/// encoding above, as `encode_with_padding` writes it. The `requires` keeps
/// out the lengths whose encoded size overflows `usize`, where `encode` panics.
#[verifier::external_body]
fn encode_standard_base64(bytes: &Vec<u8>) -> (r: String)
    requires
        4 * ((bytes@.len() + 2) / 3) <= usize::MAX,
    ensures
        r@ == standard_base64(bytes@),
{
    base64::Engine::encode(&base64::engine::general_purpose::STANDARD, bytes)
}

/// The recording as the `content` of a Google recognize request.
pub fn recording_content(wav: &Vec<u8>) -> (r: String)
    requires
        4 * ((wav@.len() + 2) / 3) <= usize::MAX,
    ensures
        r@ == standard_base64(wav@),
{
    encode_standard_base64(wav)
}

/// Whether a session will need a Google access token: Google transcribes the
/// recording, or transcribes it live.
pub fn uses_google_token(settings: &AppSettings, mode: VoiceMode) -> (r: bool)
    ensures
        r == (settings.voice.speech_profile == SpeechProfile::GoogleChirp3 || live_provider_for(
            *settings,
            mode,
            settings.voice.active_mode_profile_id@,
        ) == Some(LiveTranscriptionProvider::GoogleChirp3)),
{
    let batch = settings.voice.speech_profile == SpeechProfile::GoogleChirp3;
    let live = match live_transcription_provider_for_settings(settings, mode) {
        Some(LiveTranscriptionProvider::GoogleChirp3) => true,
        _ => false,
    };
    batch || live
}

pub open spec fn adc_login_hint(gcloud: Seq<char>) -> Seq<char> {
    "gcloudからアクセストークンが返りませんでした。ターミナルで `"@ + gcloud
        + " auth application-default login` を実行してください。"@
}

/// What a run of `gcloud auth application-default print-access-token` gives:
/// the printed token (trimmed) when the run succeeded with one, else its
/// error output (trimmed), else a hint to log in.
pub open spec fn adc_token_text(succeeded: bool, stdout: Seq<char>, stderr: Seq<char>, gcloud: Seq<char>) -> Result<
    Seq<char>,
    Seq<char>,
> {
    if succeeded && trim(stdout).len() > 0 {
        Ok(trim(stdout))
    } else if trim(stderr).len() == 0 {
        Err(adc_login_hint(gcloud))
    } else {
        Err(trim(stderr))
    }
}

pub fn adc_token_outcome(succeeded: bool, stdout: &str, stderr: &str, gcloud: &str) -> (r: Result<String, String>)
    ensures
        match adc_token_text(succeeded, stdout@, stderr@, gcloud@) {
            Ok(t) => r matches Ok(x) && x@ == t,
            Err(m) => r matches Err(x) && x@ == m,
        },
{
    let out = trim_chars(&chars_of(stdout));
    if succeeded && out.len() > 0 {
        return Ok(string_from_chars(&out));
    }
    let err = trim_chars(&chars_of(stderr));
    if err.len() == 0 {
        let mut v = chars_of("gcloudからアクセストークンが返りませんでした。ターミナルで `");
        let g = chars_of(gcloud);
        append_chars(&mut v, &g);
        let tail = chars_of(" auth application-default login` を実行してください。");
        append_chars(&mut v, &tail);
        Err(string_from_chars(&v))
    } else {
        Err(string_from_chars(&err))
    }
}

/// The details shown with a token that ADC gave.
pub fn adc_token_details(gcloud: &str) -> (r: Vec<String>)
    ensures
        r@.len() == 2,
        r@[0]@ == "認証方式: ADC"@,
        r@[1]@ == "gcloud: "@ + gcloud@,
{
    let mut v = chars_of("gcloud: ");
    let g = chars_of(gcloud);
    append_chars(&mut v, &g);
    let mut out: Vec<String> = Vec::new();
    out.push(owned("認証方式: ADC"));
    out.push(string_from_chars(&v));
    out
}

/// The scope a service account asks its token for.
pub open spec fn cloud_platform_scope() -> Seq<char> {
    "https://www.googleapis.com/auth/cloud-platform"@
}

/// The claims of the JWT that a service account signs to ask the token
/// endpoint for an access token.
#[derive(Debug, Clone, PartialEq, Eq)]
pub struct ServiceAccountClaims {
    pub iss: String,
    pub scope: String,
    pub aud: String,
    pub exp: u64,
    pub iat: u64,
}

/// The claims for the account `client_email` at the token endpoint
/// `token_uri`, issued at `now_secs` and valid for an hour.
pub fn service_account_claims(client_email: &str, token_uri: &str, now_secs: u64) -> (r: ServiceAccountClaims)
    requires
        now_secs + 3600 <= u64::MAX,
    ensures
        r.iss@ == client_email@,
        r.scope@ == cloud_platform_scope(),
        r.aud@ == token_uri@,
        r.iat == now_secs,
        r.exp == now_secs + 3600,
{
    ServiceAccountClaims {
        iss: owned(client_email),
        scope: owned("https://www.googleapis.com/auth/cloud-platform"),
        aud: owned(token_uri),
        exp: now_secs + 3600,
        iat: now_secs,
    }
}

pub open spec fn jwt_bearer_grant_type() -> Seq<char> {
    "urn:ietf:params:oauth:grant-type:jwt-bearer"@
}

/// The form fields that trade a signed assertion for an access token.
pub fn token_request_form(assertion: &str) -> (r: Vec<(String, String)>)
    ensures
        r@.len() == 2,
        r@[0].0@ == "grant_type"@ && r@[0].1@ == jwt_bearer_grant_type(),
        r@[1].0@ == "assertion"@ && r@[1].1@ == assertion@,
{
    let mut r: Vec<(String, String)> = Vec::new();
    r.push((owned("grant_type"), owned("urn:ietf:params:oauth:grant-type:jwt-bearer")));
    r.push((owned("assertion"), owned(assertion)));
    r
}

} // verus!
