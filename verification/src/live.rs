//! Which voice sessions transcribe live, and with which provider.
use vstd::prelude::*;

use crate::settings::{
    profile_or_default_index, pviews, AppSettings, SpeechProfile, VoiceSettings,
};
use crate::text::{
    chars_eq, chars_of, is_blank, join, join_chars, owned, string_from_chars, trim, trim_chars,
    vviews,
};

verus! {

/// What a voice session is for.
#[derive(Debug, Clone, Copy, PartialEq, Eq, Structural)]
pub enum VoiceMode {
    Dictation,
    Ask,
}

/// A service that transcribes while the user speaks.
#[derive(Debug, Clone, Copy, PartialEq, Eq, Structural)]
pub enum LiveTranscriptionProvider {
    AppleSpeechAnalyzer,
    GoogleChirp3,
}

/// The live provider of a speech profile; the batch-only profiles have none.
pub open spec fn live_provider(profile: SpeechProfile) -> Option<LiveTranscriptionProvider> {
    match profile {
        SpeechProfile::AppleSpeechAnalyzer => Some(LiveTranscriptionProvider::AppleSpeechAnalyzer),
        SpeechProfile::GoogleChirp3 => Some(LiveTranscriptionProvider::GoogleChirp3),
        _ => None,
    }
}

pub fn live_transcription_provider_for_speech_profile(profile: SpeechProfile) -> (r: Option<
    LiveTranscriptionProvider,
>)
    ensures
        r == live_provider(profile),
{
    match profile {
        SpeechProfile::AppleSpeechAnalyzer => Some(LiveTranscriptionProvider::AppleSpeechAnalyzer),
        SpeechProfile::GoogleChirp3 => Some(LiveTranscriptionProvider::GoogleChirp3),
        SpeechProfile::OpenAiGpt4oTranscribe => None,
        SpeechProfile::OpenAiGpt4oMiniTranscribe => None,
        SpeechProfile::GeminiAudio => None,
    }
}

/// The voice mode with this id (or the fallback one) transcribes live.
pub open spec fn profile_live(voice: VoiceSettings, id: Seq<char>) -> Option<bool> {
    match profile_or_default_index(pviews(voice.mode_profiles@), id) {
        Some(k) => Some(pviews(voice.mode_profiles@)[k].live_transcription_enabled),
        None => None,
    }
}

/// The live provider of a session: only dictation, only in a voice mode that
/// transcribes live, only with a speech profile that has a live provider.
pub open spec fn live_provider_for(settings: AppSettings, mode: VoiceMode, id: Seq<char>) -> Option<
    LiveTranscriptionProvider,
> {
    if mode != VoiceMode::Dictation {
        None
    } else {
        match profile_live(settings.voice, id) {
            Some(true) => live_provider(settings.voice.speech_profile),
            _ => None,
        }
    }
}

/// The live provider for a session in the active voice mode.
pub fn live_transcription_provider_for_settings(settings: &AppSettings, mode: VoiceMode) -> (r: Option<
    LiveTranscriptionProvider,
>)
    ensures
        r == live_provider_for(*settings, mode, settings.voice.active_mode_profile_id@),
{
    if mode != VoiceMode::Dictation {
        return None;
    }
    let profile = match settings.voice.active_mode_profile() {
        Some(p) => p,
        None => {
            return None;
        },
    };
    if !profile.live_transcription_enabled {
        return None;
    }
    live_transcription_provider_for_speech_profile(settings.voice.speech_profile)
}

/// The session in the voice mode `mode_profile_id` uses a live transcript.
pub fn should_use_live_transcript(settings: &AppSettings, mode: VoiceMode, mode_profile_id: &str) -> (r:
    bool)
    ensures
        r == (live_provider_for(*settings, mode, mode_profile_id@) is Some),
{
    if mode != VoiceMode::Dictation {
        return false;
    }
    let profile = match settings.voice.mode_profile_or_default(mode_profile_id) {
        Some(p) => p,
        None => {
            return false;
        },
    };
    profile.live_transcription_enabled && live_transcription_provider_for_speech_profile(
        settings.voice.speech_profile,
    ).is_some()
}

/// The samples as little-endian bytes, two per sample.
pub open spec fn le_bytes(samples: Seq<i16>) -> Seq<u8>
    decreases samples.len(),
{
    if samples.len() == 0 {
        Seq::empty()
    } else {
        let u = samples.last() as u16;
        le_bytes(samples.drop_last()).push((u % 256) as u8).push((u / 256) as u8)
    }
}

/// The 16-bit samples as the little-endian bytes a helper reads.
pub fn i16_samples_to_bytes(samples: &Vec<i16>) -> (r: Vec<u8>)
    ensures
        r@ == le_bytes(samples@),
{
    let mut bytes: Vec<u8> = Vec::new();
    let mut i: usize = 0;
    while i < samples.len()
        invariant
            0 <= i <= samples.len(),
            bytes@ == le_bytes(samples@.take(i as int)),
        decreases samples.len() - i,
    {
        assert(samples@.take(i + 1).drop_last() =~= samples@.take(i as int));
        let u = samples[i] as u16;
        bytes.push((u % 256) as u8);
        bytes.push((u / 256) as u8);
        i = i + 1;
    }
    assert(samples@.take(samples.len() as int) =~= samples@);
    bytes
}

// --- Streaming recognition results -------------------------------------------------

/// The transcript that a streaming recognizer's results add up to: the final
/// parts, a part repeated right after itself kept once, and the latest
/// interim text since the last final part.
#[derive(Debug)]
pub struct StreamingTranscript {
    final_parts: Vec<Vec<char>>,
    latest_interim: Vec<char>,
}

pub ghost struct StreamingView {
    pub final_parts: Seq<Seq<char>>,
    pub latest_interim: Seq<char>,
}

impl View for StreamingTranscript {
    type V = StreamingView;

    closed spec fn view(&self) -> StreamingView {
        StreamingView { final_parts: vviews(self.final_parts@), latest_interim: self.latest_interim@ }
    }
}

/// The transcript after one more result, whose text is `transcript`: blank
/// texts change nothing; a final text ends the interim one and is appended
/// unless it repeats the last final part; an interim text replaces the
/// previous interim one.
pub open spec fn streaming_step(v: StreamingView, transcript: Seq<char>, is_final: bool) -> StreamingView {
    let t = trim(transcript);
    if t.len() == 0 {
        v
    } else if is_final {
        StreamingView {
            final_parts: if v.final_parts.len() > 0 && v.final_parts.last() == t {
                v.final_parts
            } else {
                v.final_parts.push(t)
            },
            latest_interim: Seq::empty(),
        }
    } else {
        StreamingView { latest_interim: t, ..v }
    }
}

/// The text of the whole recording: the final parts on lines of their own
/// (the interim text when no part became final), trimmed.
pub open spec fn streaming_text(v: StreamingView) -> Seq<char> {
    let parts = if v.final_parts.len() == 0 && !is_blank(v.latest_interim) {
        seq![v.latest_interim]
    } else {
        v.final_parts
    };
    trim(join(parts, seq!['\n']))
}

pub open spec fn empty_streaming_message() -> Seq<char> {
    "Google Speech-to-Textのライブ文字起こし結果が空でした。"@
}

impl StreamingTranscript {
    /// Nothing recognized yet.
    pub fn new() -> (r: Self)
        ensures
            r@ == (StreamingView { final_parts: Seq::empty(), latest_interim: Seq::empty() }),
    {
        let r = StreamingTranscript { final_parts: Vec::new(), latest_interim: Vec::new() };
        assert(vviews(r.final_parts@) =~= Seq::<Seq<char>>::empty());
        r
    }

    /// Takes in one result: the text of its first alternative (empty when it
    /// has none) and whether the result is final.
    pub fn add_result(&mut self, transcript: &str, is_final: bool)
        ensures
            final(self)@ == streaming_step(old(self)@, transcript@, is_final),
    {
        let t = trim_chars(&chars_of(transcript));
        if t.len() == 0 {
            return;
        }
        if is_final {
            let n = self.final_parts.len();
            let repeated = n > 0 && chars_eq(&self.final_parts[n - 1], &t);
            if !repeated {
                let ghost before = vviews(self.final_parts@);
                self.final_parts.push(t);
                assert(vviews(self.final_parts@) =~= before.push(trim(transcript@)));
            }
            self.latest_interim = Vec::new();
            assert(self.latest_interim@ =~= Seq::<char>::empty());
        } else {
            self.latest_interim = t;
        }
    }

    /// The recording's text, or an error when nothing was recognized.
    pub fn finish(&self) -> (r: Result<String, String>)
        ensures
            match r {
                Ok(t) => t@ == streaming_text(self@) && t@.len() > 0,
                Err(e) => streaming_text(self@).len() == 0 && e@ == empty_streaming_message(),
            },
    {
        let sep = vec!['\n'];
        assert(sep@ =~= seq!['\n']);
        let interim_blank = trim_chars(&self.latest_interim).len() == 0;
        proof {
            crate::text::lemma_trim_empty_iff_blank(self.latest_interim@);
        }
        let joined = if self.final_parts.len() == 0 && !interim_blank {
            let parts = vec![self.latest_interim.clone()];
            assert(vviews(parts@) =~= seq![self.latest_interim@]);
            join_chars(&parts, &sep)
        } else {
            join_chars(&self.final_parts, &sep)
        };
        let text = trim_chars(&joined);
        if text.len() == 0 {
            Err(owned("Google Speech-to-Textのライブ文字起こし結果が空でした。"))
        } else {
            Ok(string_from_chars(&text))
        }
    }
}

} // verus!
