//! The voice session's life cycle. At most one session runs at a time; each
//! command, and each background task that finishes, either moves it on or is
//! turned away. Background tasks carry a token, and a task whose token is no
//! longer the session's own cannot touch a newer session.
use vstd::prelude::*;

use crate::live::{LiveTranscriptionProvider, VoiceMode};
use crate::settings::{profile_or_default_index, pviews, ProfileView, VoiceModeProfile, VoiceSettings};
use crate::text::{is_blank, is_blank_str, owned};

verus! {

/// What the voice window shows of a voice mode.
#[derive(Debug, Clone)]
pub struct VoiceModeProfileSnapshot {
    pub id: String,
    pub name: String,
    pub formatting_enabled: bool,
}

/// `s` shows the voice mode `p`.
pub open spec fn snapshot_of(s: VoiceModeProfileSnapshot, p: ProfileView) -> bool {
    &&& s.id@ == p.id
    &&& s.name@ == p.name
    &&& s.formatting_enabled == p.formatting_enabled
}

/// `r` shows the mode at index `k` of `ps`, or is `None` when there is no such mode.
pub open spec fn snapshot_at(
    r: Option<VoiceModeProfileSnapshot>,
    ps: Seq<ProfileView>,
    k: Option<int>,
) -> bool {
    match k {
        Some(k) => r matches Some(s) && snapshot_of(s, ps[k]),
        None => r is None,
    }
}

pub fn snapshot_from_profile(profile: &VoiceModeProfile) -> (r: VoiceModeProfileSnapshot)
    ensures
        snapshot_of(r, profile@),
{
    VoiceModeProfileSnapshot {
        id: profile.id.clone(),
        name: profile.name.clone(),
        formatting_enabled: profile.formatting_enabled,
    }
}

/// The mode with the id `mode_profile_id`, else the default mode, else the first.
pub fn profile_snapshot_for_id(voice: &VoiceSettings, mode_profile_id: &str) -> (r: Option<
    VoiceModeProfileSnapshot,
>)
    ensures
        snapshot_at(
            r,
            pviews(voice.mode_profiles@),
            profile_or_default_index(pviews(voice.mode_profiles@), mode_profile_id@),
        ),
{
    match voice.mode_profile_or_default(mode_profile_id) {
        Some(p) => Some(snapshot_from_profile(p)),
        None => None,
    }
}

/// Dictation shows its voice mode; a question shows none.
pub fn profile_snapshot_for_mode(voice: &VoiceSettings, mode: VoiceMode, mode_profile_id: &str) -> (r:
    Option<VoiceModeProfileSnapshot>)
    ensures
        mode == VoiceMode::Dictation ==> snapshot_at(
            r,
            pviews(voice.mode_profiles@),
            profile_or_default_index(pviews(voice.mode_profiles@), mode_profile_id@),
        ),
        mode != VoiceMode::Dictation ==> r is None,
{
    if mode == VoiceMode::Dictation {
        profile_snapshot_for_id(voice, mode_profile_id)
    } else {
        None
    }
}

/// The id and the name that a state event carries of a voice mode.
pub fn state_profile_fields(mode_profile: Option<VoiceModeProfileSnapshot>) -> (r: (
    Option<String>,
    Option<String>,
))
    ensures
        match mode_profile {
            Some(p) => r.0 == Some(p.id) && r.1 == Some(p.name),
            None => r.0 is None && r.1 is None,
        },
{
    match mode_profile {
        Some(profile) => (Some(profile.id), Some(profile.name)),
        None => (None, None),
    }
}

/// The session that runs.
#[derive(Debug)]
pub enum SessionState {
    /// Recording is being prepared by the task holding `token`.
    Starting { mode: VoiceMode, mode_profile_id: String, token: u64 },
    /// Recording.
    Active { mode: VoiceMode, mode_profile_id: String },
    /// The recording is being turned into text by the task holding `token`.
    Processing { token: u64 },
}

/// Keeps the one voice session that may run.
#[derive(Debug)]
pub struct VoiceManager {
    pub active: Option<SessionState>,
}

/// What the voice window shows while a new session prepares.
#[derive(Debug, Clone)]
pub struct StartNotice {
    pub mode: VoiceMode,
    pub mode_profile: Option<VoiceModeProfileSnapshot>,
    pub message: String,
}

/// What stopping a session asks of its caller.
#[derive(Debug)]
pub enum StopDecision {
    /// No session records: nothing to do.
    Nothing,
    /// A session was still preparing: cancel the task holding `token`, show
    /// the idle state and hide the window.
    CancelStart { token: u64 },
    /// Finish the recording and process it; the session now waits for that.
    Finish { mode: VoiceMode, mode_profile_id: String },
}

/// What cancelling a session asks of its caller, besides showing the idle
/// state and hiding the window.
#[derive(Debug)]
pub enum CancelDecision {
    Nothing,
    CancelStart { token: u64 },
    CancelRecording,
    CancelProcessing { token: u64 },
}

/// The mode and voice mode id of a session whose voice mode can be switched.
pub open spec fn cycle_target_of(s: Option<SessionState>) -> Option<Seq<char>> {
    match s {
        Some(SessionState::Starting { mode, mode_profile_id, .. }) => if mode
            == VoiceMode::Dictation {
            Some(mode_profile_id@)
        } else {
            None
        },
        Some(SessionState::Active { mode, mode_profile_id }) => if mode == VoiceMode::Dictation {
            Some(mode_profile_id@)
        } else {
            None
        },
        _ => None,
    }
}

/// The id a preparing session keeps of the voice mode shown, empty when none is.
pub open spec fn shown_profile_id(p: Option<VoiceModeProfileSnapshot>) -> Seq<char> {
    match p {
        Some(p) => p.id@,
        None => Seq::empty(),
    }
}

/// `s` is the session that `start_session` begins, and `n` what it shows:
/// dictation shows the active voice mode, a question none.
pub open spec fn started(
    s: Option<SessionState>,
    n: StartNotice,
    voice: VoiceSettings,
    mode: VoiceMode,
    token: u64,
) -> bool {
    &&& n.mode == mode
    &&& n.message@ == "録音を準備しています…"@
    &&& mode == VoiceMode::Dictation ==> snapshot_at(
        n.mode_profile,
        pviews(voice.mode_profiles@),
        profile_or_default_index(pviews(voice.mode_profiles@), voice.active_mode_profile_id@),
    )
    &&& mode != VoiceMode::Dictation ==> n.mode_profile is None
    &&& s matches Some(SessionState::Starting { mode: m, mode_profile_id: id, token: t })
    &&& m == mode
    &&& t == token
    &&& id@ == shown_profile_id(n.mode_profile)
}

impl VoiceManager {
    pub fn new() -> (r: Self)
        ensures
            r.active is None,
    {
        VoiceManager { active: None }
    }

    pub fn is_active(&self) -> (r: bool)
        ensures
            r == self.active is Some,
    {
        self.active.is_some()
    }

    /// Starts preparing a session, unless one runs already (then nothing changes).
    /// Dictation records in the active voice mode.
    pub fn start_session(&mut self, voice: &VoiceSettings, mode: VoiceMode, token: u64) -> (r:
        Option<StartNotice>)
        ensures
            old(self).active is Some ==> r is None && final(self).active == old(self).active,
            old(self).active is None ==> (r matches Some(n) && started(
                final(self).active,
                n,
                *voice,
                mode,
                token,
            )),
    {
        if self.active.is_some() {
            return None;
        }
        let mode_profile = if mode == VoiceMode::Dictation {
            match voice.active_mode_profile() {
                Some(p) => Some(snapshot_from_profile(p)),
                None => None,
            }
        } else {
            None
        };
        let mode_profile_id = match &mode_profile {
            Some(p) => p.id.clone(),
            None => String::new(),
        };
        self.active = Some(SessionState::Starting { mode, mode_profile_id, token });
        Some(StartNotice { mode, mode_profile, message: owned("録音を準備しています…") })
    }

    /// Stops the session: one still preparing ends, one recording goes on to
    /// be processed by the task holding `processing_token`, one processing
    /// goes on unchanged.
    pub fn stop_session(&mut self, processing_token: u64) -> (r: StopDecision)
        ensures
            match old(self).active {
                None => r is Nothing && final(self).active is None,
                Some(SessionState::Starting { token, .. }) => r == (StopDecision::CancelStart {
                    token,
                }) && final(self).active is None,
                Some(SessionState::Active { mode, mode_profile_id }) => r == (StopDecision::Finish {
                    mode,
                    mode_profile_id,
                }) && final(self).active == Some(
                    SessionState::Processing { token: processing_token },
                ),
                Some(SessionState::Processing { .. }) => r is Nothing && final(self).active == old(
                    self,
                ).active,
            },
    {
        match self.active.take() {
            None => StopDecision::Nothing,
            Some(SessionState::Starting { token, .. }) => StopDecision::CancelStart { token },
            Some(SessionState::Active { mode, mode_profile_id }) => {
                self.active = Some(SessionState::Processing { token: processing_token });
                StopDecision::Finish { mode, mode_profile_id }
            },
            Some(SessionState::Processing { token }) => {
                self.active = Some(SessionState::Processing { token });
                StopDecision::Nothing
            },
        }
    }

    /// Ends whatever session runs.
    pub fn cancel_session(&mut self) -> (r: CancelDecision)
        ensures
            final(self).active is None,
            match old(self).active {
                None => r is Nothing,
                Some(SessionState::Starting { token, .. }) => r == (CancelDecision::CancelStart {
                    token,
                }),
                Some(SessionState::Active { .. }) => r is CancelRecording,
                Some(SessionState::Processing { token }) => r == (
                CancelDecision::CancelProcessing { token }),
            },
    {
        match self.active.take() {
            None => CancelDecision::Nothing,
            Some(SessionState::Starting { token, .. }) => CancelDecision::CancelStart { token },
            Some(SessionState::Active { .. }) => CancelDecision::CancelRecording,
            Some(SessionState::Processing { token }) => CancelDecision::CancelProcessing { token },
        }
    }

    /// Starts polishing the selected text, processed by the task holding
    /// `token`, unless a session runs already.
    pub fn polish_selection(&mut self, token: u64) -> (r: bool)
        ensures
            r == old(self).active is None,
            r ==> final(self).active == Some(SessionState::Processing { token }),
            !r ==> final(self).active == old(self).active,
    {
        if self.active.is_some() {
            return false;
        }
        self.active = Some(SessionState::Processing { token });
        true
    }

    /// The voice mode id of a dictation session that is preparing or recording.
    pub fn cycle_target(&self) -> (r: Option<String>)
        ensures
            match cycle_target_of(self.active) {
                Some(id) => r matches Some(x) && x@ == id,
                None => r is None,
            },
    {
        match &self.active {
            Some(SessionState::Starting { mode, mode_profile_id, .. }) => {
                if *mode == VoiceMode::Dictation {
                    Some(mode_profile_id.clone())
                } else {
                    None
                }
            },
            Some(SessionState::Active { mode, mode_profile_id }) => {
                if *mode == VoiceMode::Dictation {
                    Some(mode_profile_id.clone())
                } else {
                    None
                }
            },
            _ => None,
        }
    }

    /// Moves a dictation session that is preparing or recording to the voice
    /// mode `next_id`, and names the state to show ("preparing" or
    /// "recording"); any other session is left alone.
    pub fn apply_cycled_profile(&mut self, next_id: String) -> (r: Option<&'static str>)
        ensures
            match old(self).active {
                Some(SessionState::Starting { mode, token, .. }) => if mode
                    == VoiceMode::Dictation {
                    r == Some("preparing") && final(self).active == Some(
                        SessionState::Starting { mode, mode_profile_id: next_id, token },
                    )
                } else {
                    r is None && final(self).active == old(self).active
                },
                Some(SessionState::Active { mode, .. }) => if mode == VoiceMode::Dictation {
                    r == Some("recording") && final(self).active == Some(
                        SessionState::Active { mode, mode_profile_id: next_id },
                    )
                } else {
                    r is None && final(self).active == old(self).active
                },
                _ => r is None && final(self).active == old(self).active,
            },
    {
        match self.active.take() {
            Some(SessionState::Starting { mode, mode_profile_id, token }) => {
                if mode == VoiceMode::Dictation {
                    self.active = Some(
                        SessionState::Starting { mode, mode_profile_id: next_id, token },
                    );
                    Some("preparing")
                } else {
                    self.active = Some(SessionState::Starting { mode, mode_profile_id, token });
                    None
                }
            },
            Some(SessionState::Active { mode, mode_profile_id }) => {
                if mode == VoiceMode::Dictation {
                    self.active = Some(SessionState::Active { mode, mode_profile_id: next_id });
                    Some("recording")
                } else {
                    self.active = Some(SessionState::Active { mode, mode_profile_id });
                    None
                }
            },
            other => {
                self.active = other;
                None
            },
        }
    }

    /// Ends the processing session held by `token`; says whether it did.
    pub fn clear_processing_session(&mut self, token: u64) -> (r: bool)
        ensures
            r == (old(self).active == Some(SessionState::Processing { token })),
            r ==> final(self).active is None,
            !r ==> final(self).active == old(self).active,
    {
        let matches = match &self.active {
            Some(SessionState::Processing { token: current }) => *current == token,
            _ => false,
        };
        if matches {
            self.active = None;
        }
        matches
    }

    /// Ends the preparing session held by `token`; says whether it did.
    pub fn clear_starting_session(&mut self, token: u64) -> (r: bool)
        ensures
            r == (old(self).active matches Some(SessionState::Starting { token: t, .. }) && t
                == token),
            r ==> final(self).active is None,
            !r ==> final(self).active == old(self).active,
    {
        let matches = match &self.active {
            Some(SessionState::Starting { token: current, .. }) => *current == token,
            _ => false,
        };
        if matches {
            self.active = None;
        }
        matches
    }

    /// Turns the session prepared by the task holding `token` into a
    /// recording one, unless that session was cancelled or replaced; gives the
    /// voice mode id it records in.
    pub fn commit_start(&mut self, mode: VoiceMode, token: u64, cancelled: bool) -> (r: Option<
        String,
    >)
        ensures
            match old(self).active {
                Some(SessionState::Starting { mode: m, mode_profile_id, token: t }) => if m == mode
                    && t == token && !cancelled {
                    r == Some(mode_profile_id) && final(self).active == Some(
                        SessionState::Active { mode, mode_profile_id },
                    )
                } else {
                    r is None && final(self).active == old(self).active
                },
                _ => r is None && final(self).active == old(self).active,
            },
    {
        match self.active.take() {
            Some(SessionState::Starting { mode: m, mode_profile_id, token: t }) => {
                if m == mode && t == token && !cancelled {
                    let id = mode_profile_id.clone();
                    self.active = Some(SessionState::Active { mode, mode_profile_id });
                    Some(id)
                } else {
                    self.active = Some(SessionState::Starting { mode: m, mode_profile_id, token: t });
                    None
                }
            },
            other => {
                self.active = other;
                None
            },
        }
    }
}

/// A dictation session in a voice mode that does not reformat: it only outputs the transcript.
pub open spec fn outputs_transcript_only(mode: VoiceMode, p: Option<VoiceModeProfileSnapshot>) -> bool {
    &&& mode == VoiceMode::Dictation
    &&& p matches Some(q)
    &&& !q.formatting_enabled
}

/// What the voice window says while a recording is processed.
pub fn processing_message(mode: VoiceMode, mode_profile: &Option<VoiceModeProfileSnapshot>) -> (r:
    &'static str)
    ensures
        outputs_transcript_only(mode, *mode_profile) ==> r == "文字起こしを出力しています…",
        !outputs_transcript_only(mode, *mode_profile) ==> r == "音声を整形しています…",
{
    let raw = mode == VoiceMode::Dictation && match mode_profile {
        Some(p) => !p.formatting_enabled,
        None => false,
    };
    if raw {
        "文字起こしを出力しています…"
    } else {
        "音声を整形しています…"
    }
}

/// What a live transcriber handed over at the end of a recording.
#[derive(Debug)]
pub struct LiveTranscript {
    pub provider: LiveTranscriptionProvider,
    pub result: Result<String, String>,
}

/// Where the transcript of a recording comes from.
#[derive(Debug, Clone)]
pub enum TranscriptSource {
    /// The live transcript; its use is billed when Google transcribed it.
    Live { text: String, record_google_usage: bool },
    /// A transcription of the whole recording.
    Batch,
}

/// The live transcript may be used and holds some text.
pub open spec fn live_text_usable(use_live: bool, l: LiveTranscript) -> bool {
    &&& use_live
    &&& l.result matches Ok(t)
    &&& !is_blank(t@)
}

/// The live transcript is used when the session may use it and it holds some
/// text; otherwise (none, an empty one, or a failed one) the recording is
/// transcribed as a whole.
pub fn transcript_source(use_live: bool, live: &Option<LiveTranscript>) -> (r: TranscriptSource)
    ensures
        match live {
            Some(l) => if live_text_usable(use_live, *l) {
                r matches TranscriptSource::Live { text, record_google_usage } && text
                    == l.result->Ok_0 && record_google_usage == (l.provider
                    == LiveTranscriptionProvider::GoogleChirp3)
            } else {
                r is Batch
            },
            None => r is Batch,
        },
{
    if !use_live {
        return TranscriptSource::Batch;
    }
    match live {
        Some(l) => match &l.result {
            Ok(t) => {
                if is_blank_str(t.as_str()) {
                    TranscriptSource::Batch
                } else {
                    TranscriptSource::Live {
                        text: t.clone(),
                        record_google_usage: l.provider == LiveTranscriptionProvider::GoogleChirp3,
                    }
                }
            },
            Err(_) => TranscriptSource::Batch,
        },
        None => TranscriptSource::Batch,
    }
}

pub open spec fn no_selection_message() -> Seq<char> {
    "テキストを選択してから実行してください。"@
}

/// Polishing needs selected text: a blank selection is refused with a message.
pub fn polish_selection_error(selected_text: &str) -> (r: Option<String>)
    ensures
        is_blank(selected_text@) ==> (r matches Some(m) && m@ == no_selection_message()),
        !is_blank(selected_text@) ==> r is None,
{
    if is_blank_str(selected_text) {
        Some(owned("テキストを選択してから実行してください。"))
    } else {
        None
    }
}

/// What a session shows once its text is ready: the text pasted at the
/// cursor, or, when the paste was not confirmed, the text offered for copying.
#[derive(Debug, Clone)]
pub struct PasteOutcome {
    pub text: String,
    pub inserted: bool,
    /// Why the text did not reach the cursor.
    pub reason: Option<String>,
    /// What the voice window says in its fallback state, when the paste failed.
    pub fallback_message: Option<String>,
}

pub open spec fn paste_unconfirmed_reason() -> Seq<char> {
    "カーソル位置への貼り付けを確認できませんでした。"@
}

pub open spec fn paste_fallback_message() -> Seq<char> {
    "カーソル位置への貼り付けを確認できなかったため、コピー用に表示しています。"@
}

/// The result of a session whose text `text` was pasted, `inserted` saying
/// whether the paste was seen at the cursor.
pub fn paste_outcome(text: String, inserted: bool) -> (r: PasteOutcome)
    ensures
        r.text@ == text@,
        r.inserted == inserted,
        inserted ==> r.reason is None && r.fallback_message is None,
        !inserted ==> (r.reason matches Some(m) && m@ == paste_unconfirmed_reason()) && (
        r.fallback_message matches Some(f) && f@ == paste_fallback_message()),
{
    if inserted {
        PasteOutcome { text, inserted: true, reason: None, fallback_message: None }
    } else {
        PasteOutcome {
            text,
            inserted: false,
            reason: Some(owned("カーソル位置への貼り付けを確認できませんでした。")),
            fallback_message: Some(
                owned("カーソル位置への貼り付けを確認できなかったため、コピー用に表示しています。"),
            ),
        }
    }
}

} // verus!
