//! Whether a speech profile is ready to use, as the settings screen reports it.
use vstd::prelude::*;

use crate::dictionary::{eviews, DictionaryEntry, EntryView};
use crate::screen_context::{
    keyed, lowercase_of, screen_context_terms, term_keys, terms_of, VoiceScreenContext,
};
use crate::settings::{AppSettings, SpeechProfile};
use crate::text::{
    append_chars, append_str_chars, chars_of, is_blank, is_blank_str, join, join_chars, owned,
    str_eq, string_from_chars, sviews, trim, trim_chars, vviews,
};

verus! {

/// The outcome of a setup check.
#[derive(Debug, Clone)]
pub struct SpeechSetupCheck {
    pub ok: bool,
    pub message: String,
    pub details: Vec<String>,
}

/// The state of Apple's on-device speech recognition.
#[derive(Debug, Clone)]
pub struct AppleSpeechStatus {
    pub helper_available: bool,
    pub supported: bool,
    pub status: String,
    pub authorization: String,
    pub message: String,
    pub details: Vec<String>,
}

/// What the Apple speech helper answered.
#[derive(Debug, Clone)]
pub struct AppleSpeechHelperResponse {
    pub ok: bool,
    pub status: Option<String>,
    pub supported: Option<bool>,
    pub authorization: Option<String>,
    pub reason: Option<String>,
    pub error: Option<String>,
    pub details: Option<Vec<String>>,
    pub transcript: Option<String>,
}

/// The check of a profile whose only need is a saved API key, from the
/// keychain lookup of that key.
pub fn check_secret_setup(
    label: &str,
    ok_message: &str,
    missing_message: &str,
    lookup: &Result<String, String>,
) -> (r: SpeechSetupCheck)
    ensures
        r.ok == crate::secrets::usable(*lookup),
        r.message@ == (if r.ok {
            ok_message@
        } else {
            missing_message@
        }),
        sviews(r.details@) == seq![
            label@ + (if r.ok {
                ": 保存済み"@
            } else {
                ": 未保存"@
            }),
        ],
{
    let ok = match lookup {
        Ok(value) => !is_blank_str(value.as_str()),
        Err(_) => false,
    };
    let mut detail = chars_of(label);
    if ok {
        append_str_chars(&mut detail, ": 保存済み");
    } else {
        append_str_chars(&mut detail, ": 未保存");
    }
    let mut details: Vec<String> = Vec::new();
    details.push(string_from_chars(&detail));
    assert(sviews(details@) =~= seq![detail@]);
    SpeechSetupCheck {
        ok,
        message: if ok {
            owned(ok_message)
        } else {
            owned(missing_message)
        },
        details,
    }
}

/// The Google settings that are still blank, by their labels.
pub open spec fn google_missing(settings: AppSettings) -> Seq<Seq<char>> {
    let a: Seq<Seq<char>> = if is_blank(settings.voice.google_cloud_project_id@) {
        seq!["Google Cloud Project ID"@]
    } else {
        Seq::empty()
    };
    if is_blank(settings.voice.google_cloud_region@) {
        a.push("Google Cloudリージョン"@)
    } else {
        a
    }
}

/// The failed check for blank Google settings, if any is blank.
pub fn google_chirp3_missing_check(settings: &AppSettings) -> (r: Option<SpeechSetupCheck>)
    ensures
        google_missing(*settings).len() == 0 <==> r is None,
        r matches Some(c) ==> !c.ok && c.message@ == "未入力の設定があります: "@ + join(
            google_missing(*settings),
            ", "@,
        ) && c.details@.len() == 0,
{
    let mut missing: Vec<Vec<char>> = Vec::new();
    if is_blank_str(settings.voice.google_cloud_project_id.as_str()) {
        missing.push(chars_of("Google Cloud Project ID"));
    }
    if is_blank_str(settings.voice.google_cloud_region.as_str()) {
        let ghost before = vviews(missing@);
        missing.push(chars_of("Google Cloudリージョン"));
        assert(vviews(missing@) =~= before.push("Google Cloudリージョン"@));
    }
    assert(vviews(missing@) =~= google_missing(*settings));
    if missing.len() == 0 {
        return None;
    }
    let mut message = chars_of("未入力の設定があります: ");
    let sep = chars_of(", ");
    let list = join_chars(&missing, &sep);
    append_chars(&mut message, &list);
    Some(SpeechSetupCheck { ok: false, message: string_from_chars(&message), details: Vec::new() })
}

pub open spec fn google_ok_message() -> Seq<char> {
    "Google Chirp 3の認証設定は利用可能です。"@
}

pub open spec fn google_token_note() -> Seq<char> {
    "認証トークン取得まで確認しました。Speech-to-Text API有効化と権限は実際の認識リクエスト時に検証されます。"@
}

pub open spec fn google_project_line(settings: AppSettings) -> Seq<char> {
    "Project ID: "@ + trim(settings.voice.google_cloud_project_id@) + " / リージョン: "@ + trim(
        settings.voice.google_cloud_region@,
    )
}

/// The check once the Google settings are filled in, from the attempt to
/// get an access token (its details, or the error message).
pub fn google_chirp3_token_check(settings: &AppSettings, token: Result<Vec<String>, String>) -> (r:
    SpeechSetupCheck)
    ensures
        match token {
            Ok(details) => r.ok && r.message@ == google_ok_message() && sviews(r.details@) == seq![
                google_project_line(*settings),
            ] + sviews(details@) + seq![google_token_note()],
            Err(message) => !r.ok && r.message@ == message@ && r.details@.len() == 0,
        },
{
    match token {
        Ok(details) => {
            let mut line = chars_of("Project ID: ");
            let p = trim_chars(&chars_of(settings.voice.google_cloud_project_id.as_str()));
            append_chars(&mut line, &p);
            append_str_chars(&mut line, " / リージョン: ");
            let g = trim_chars(&chars_of(settings.voice.google_cloud_region.as_str()));
            append_chars(&mut line, &g);
            let mut out: Vec<String> = Vec::new();
            out.push(string_from_chars(&line));
            let mut i: usize = 0;
            while i < details.len()
                invariant
                    0 <= i <= details.len(),
                    sviews(out@) == seq![line@] + sviews(details@).take(i as int),
                decreases details.len() - i,
            {
                let ghost before = sviews(out@);
                let d = details[i].clone();
                out.push(d);
                assert(sviews(out@) =~= before.push(sviews(details@)[i as int]));
                assert(sviews(details@).take(i + 1) =~= sviews(details@).take(i as int).push(
                    sviews(details@)[i as int],
                ));
                assert(sviews(out@) =~= seq![line@] + sviews(details@).take(i + 1));
                i = i + 1;
            }
            let ghost before = sviews(out@);
            out.push(
                owned(
                    "認証トークン取得まで確認しました。Speech-to-Text API有効化と権限は実際の認識リクエスト時に検証されます。",
                ),
            );
            assert(sviews(details@).take(details.len() as int) =~= sviews(details@));
            assert(sviews(out@) =~= before.push(google_token_note()));
            SpeechSetupCheck {
                ok: true,
                message: owned("Google Chirp 3の認証設定は利用可能です。"),
                details: out,
            }
        },
        Err(message) => SpeechSetupCheck { ok: false, message, details: Vec::new() },
    }
}

/// How a speech profile's setup is checked.
#[derive(Debug, Clone)]
pub enum SpeechSetupKind {
    /// Project settings, then an access token.
    GoogleChirp3,
    /// A saved API key.
    Secret { label: String, provider: String, ok_message: String, missing_message: String },
    /// The on-device helper's status.
    AppleSpeech,
}

pub fn speech_setup_kind(profile: SpeechProfile) -> (r: SpeechSetupKind)
    ensures
        match profile {
            SpeechProfile::GoogleChirp3 => r is GoogleChirp3,
            SpeechProfile::AppleSpeechAnalyzer => r is AppleSpeech,
            SpeechProfile::GeminiAudio => r matches SpeechSetupKind::Secret {
                label,
                provider,
                ok_message,
                missing_message,
            } && label@ == "Gemini APIキー"@ && provider@ == "gemini"@ && ok_message@
                == "Gemini APIキーが保存されています。"@ && missing_message@
                == "Gemini APIキーを保存してください。"@,
            _ => r matches SpeechSetupKind::Secret { label, provider, ok_message, missing_message }
                && label@ == "OpenAI APIキー"@ && provider@ == "openai"@ && ok_message@
                == "OpenAI APIキーが保存されています。"@ && missing_message@
                == "OpenAI APIキーを保存してください。"@,
        },
{
    match profile {
        SpeechProfile::GoogleChirp3 => SpeechSetupKind::GoogleChirp3,
        SpeechProfile::OpenAiGpt4oTranscribe => SpeechSetupKind::Secret {
            label: owned("OpenAI APIキー"),
            provider: owned("openai"),
            ok_message: owned("OpenAI APIキーが保存されています。"),
            missing_message: owned("OpenAI APIキーを保存してください。"),
        },
        SpeechProfile::OpenAiGpt4oMiniTranscribe => SpeechSetupKind::Secret {
            label: owned("OpenAI APIキー"),
            provider: owned("openai"),
            ok_message: owned("OpenAI APIキーが保存されています。"),
            missing_message: owned("OpenAI APIキーを保存してください。"),
        },
        SpeechProfile::GeminiAudio => SpeechSetupKind::Secret {
            label: owned("Gemini APIキー"),
            provider: owned("gemini"),
            ok_message: owned("Gemini APIキーが保存されています。"),
            missing_message: owned("Gemini APIキーを保存してください。"),
        },
        SpeechProfile::AppleSpeechAnalyzer => SpeechSetupKind::AppleSpeech,
    }
}

// --- Apple's on-device recognition ----------------------------------------------

pub open spec fn or_unknown(o: Option<String>) -> Seq<char> {
    match o {
        Some(s) => s@,
        None => "unknown"@,
    }
}

/// The message for the helper's answer.
pub open spec fn apple_message(ok: bool, supported: bool, status: Seq<char>, auth: Seq<char>) -> Seq<
    char,
> {
    if !ok {
        "Apple SpeechAnalyzerの状態確認に失敗しました。"@
    } else if !supported {
        "このMacではApple SpeechAnalyzerを利用できません。"@
    } else if status == "installed"@ && auth == "authorized"@ {
        "Apple SpeechAnalyzer日本語モデルは利用可能です。"@
    } else if status == "installed"@ && auth == "notDetermined"@ {
        "Apple SpeechAnalyzer日本語モデルはインストール済みです。音声認識権限の確認が必要です。"@
    } else if status == "installed"@ && (auth == "denied"@ || auth == "restricted"@) {
        "音声認識権限が許可されていません。macOSの設定で許可してください。"@
    } else if status == "downloading"@ {
        "Apple SpeechAnalyzer日本語モデルをインストール中です。"@
    } else if status == "supported"@ {
        "Apple SpeechAnalyzer日本語モデルは未インストールです。"@
    } else {
        "Apple SpeechAnalyzerの状態を確認しました。"@
    }
}

/// The reason the helper gave (its reason, else its error).
pub open spec fn apple_reason(r: AppleSpeechHelperResponse) -> Option<String> {
    match r.reason {
        Some(x) => Some(x),
        None => r.error,
    }
}

/// The helper's details, with a non-blank reason in front.
pub open spec fn apple_details(r: AppleSpeechHelperResponse) -> Seq<Seq<char>> {
    let d = match r.details {
        Some(v) => sviews(v@),
        None => Seq::empty(),
    };
    match apple_reason(r) {
        Some(x) => if is_blank(x@) {
            d
        } else {
            seq![x@] + d
        },
        None => d,
    }
}

pub open spec fn apple_supported(r: AppleSpeechHelperResponse) -> bool {
    match r.supported {
        Some(b) => b,
        None => or_unknown(r.status) != "unsupported"@,
    }
}

fn or_unknown_exec(o: Option<String>) -> (r: String)
    ensures
        r@ == or_unknown(o),
{
    match o {
        Some(s) => s,
        None => owned("unknown"),
    }
}

/// The status shown for the helper's answer; the helper ran, so it is available.
pub fn apple_status_from_helper(response: AppleSpeechHelperResponse) -> (r: AppleSpeechStatus)
    ensures
        r.helper_available,
        r.supported == apple_supported(response),
        r.status@ == or_unknown(response.status),
        r.authorization@ == or_unknown(response.authorization),
        r.message@ == apple_message(
            response.ok,
            apple_supported(response),
            or_unknown(response.status),
            or_unknown(response.authorization),
        ),
        sviews(r.details@) == apple_details(response),
{
    let ghost resp = response;
    let status = or_unknown_exec(response.status);
    let authorization = or_unknown_exec(response.authorization);
    let supported = match response.supported {
        Some(b) => b,
        None => !str_eq(status.as_str(), "unsupported"),
    };
    let reason = match response.reason {
        Some(x) => Some(x),
        None => response.error,
    };
    let mut details = match response.details {
        Some(v) => v,
        None => Vec::new(),
    };
    match reason {
        Some(x) => {
            if !is_blank_str(x.as_str()) {
                let ghost before = sviews(details@);
                details.insert(0, x);
                assert(sviews(details@) =~= seq![x@] + before);
            }
        },
        None => {},
    }
    let st = status.as_str();
    let au = authorization.as_str();
    let message = if !response.ok {
        owned("Apple SpeechAnalyzerの状態確認に失敗しました。")
    } else if !supported {
        owned("このMacではApple SpeechAnalyzerを利用できません。")
    } else if str_eq(st, "installed") && str_eq(au, "authorized") {
        owned("Apple SpeechAnalyzer日本語モデルは利用可能です。")
    } else if str_eq(st, "installed") && str_eq(au, "notDetermined") {
        owned("Apple SpeechAnalyzer日本語モデルはインストール済みです。音声認識権限の確認が必要です。")
    } else if str_eq(st, "installed") && (str_eq(au, "denied") || str_eq(au, "restricted")) {
        owned("音声認識権限が許可されていません。macOSの設定で許可してください。")
    } else if str_eq(st, "downloading") {
        owned("Apple SpeechAnalyzer日本語モデルをインストール中です。")
    } else if str_eq(st, "supported") {
        owned("Apple SpeechAnalyzer日本語モデルは未インストールです。")
    } else {
        owned("Apple SpeechAnalyzerの状態を確認しました。")
    };
    AppleSpeechStatus { helper_available: true, supported, status, authorization, message, details }
}

/// Ready when the helper is there, the Mac is supported, the model is
/// installed and recognition is authorized.
pub open spec fn apple_ready(s: AppleSpeechStatus) -> bool {
    s.helper_available && s.supported && s.status@ == "installed"@ && s.authorization@
        == "authorized"@
}

pub fn apple_speech_setup_check(status: &AppleSpeechStatus) -> (r: SpeechSetupCheck)
    ensures
        r.ok == apple_ready(*status),
        r.message@ == status.message@,
        sviews(r.details@) == seq![
            "モデル状態: "@ + status.status@,
            "音声認識権限: "@ + status.authorization@,
        ] + sviews(status.details@),
{
    let ok = status.helper_available && status.supported && str_eq(
        status.status.as_str(),
        "installed",
    ) && str_eq(status.authorization.as_str(), "authorized");
    let mut a = chars_of("モデル状態: ");
    append_str_chars(&mut a, status.status.as_str());
    let mut b = chars_of("音声認識権限: ");
    append_str_chars(&mut b, status.authorization.as_str());
    let mut details: Vec<String> = Vec::new();
    details.push(string_from_chars(&a));
    details.push(string_from_chars(&b));
    let mut i: usize = 0;
    while i < status.details.len()
        invariant
            0 <= i <= status.details.len(),
            sviews(details@) == seq![a@, b@] + sviews(status.details@).take(i as int),
        decreases status.details.len() - i,
    {
        let ghost before = sviews(details@);
        let d = status.details[i].clone();
        details.push(d);
        assert(sviews(details@) =~= before.push(sviews(status.details@)[i as int]));
        assert(sviews(status.details@).take(i + 1) =~= sviews(status.details@).take(i as int).push(
            sviews(status.details@)[i as int],
        ));
        i = i + 1;
    }
    assert(sviews(status.details@).take(status.details.len() as int) =~= sviews(status.details@));
    SpeechSetupCheck { ok, message: status.message.clone(), details }
}

/// Contextual strings Apple's recognizer takes at most.
pub const APPLE_SPEECH_CONTEXTUAL_STRINGS_MAX: usize = 180;

/// Takes an enabled entry's preferred form, trimmed, if it is 1 to 40
/// characters and new ignoring case, unless the list is full.
pub open spec fn push_entry_string(acc: Seq<Seq<char>>, v: Seq<char>) -> Seq<Seq<char>> {
    let t = trim(v);
    if acc.len() >= APPLE_SPEECH_CONTEXTUAL_STRINGS_MAX || t.len() == 0 || t.len() > 40
        || term_keys(acc).contains(lowercase_of(t)) {
        acc
    } else {
        acc.push(t)
    }
}

/// Takes a screen term if it is new ignoring case, unless the list is full.
pub open spec fn push_screen_string(acc: Seq<Seq<char>>, v: Seq<char>) -> Seq<Seq<char>> {
    if acc.len() >= APPLE_SPEECH_CONTEXTUAL_STRINGS_MAX || term_keys(acc).contains(lowercase_of(v)) {
        acc
    } else {
        acc.push(v)
    }
}

pub open spec fn push_entry_strings(acc: Seq<Seq<char>>, es: Seq<EntryView>) -> Seq<Seq<char>>
    decreases es.len(),
{
    if es.len() == 0 {
        acc
    } else {
        let a = push_entry_strings(acc, es.drop_last());
        if es.last().enabled {
            push_entry_string(a, es.last().preferred)
        } else {
            a
        }
    }
}

pub open spec fn push_screen_strings(acc: Seq<Seq<char>>, ts: Seq<Seq<char>>) -> Seq<Seq<char>>
    decreases ts.len(),
{
    if ts.len() == 0 {
        acc
    } else {
        push_screen_string(push_screen_strings(acc, ts.drop_last()), ts.last())
    }
}

/// The enabled entries' preferred forms, then the screen's terms, each once
/// ignoring case, at most `APPLE_SPEECH_CONTEXTUAL_STRINGS_MAX`.
pub open spec fn apple_contextual(es: Seq<EntryView>, c: VoiceScreenContext) -> Seq<Seq<char>> {
    push_screen_strings(push_entry_strings(Seq::empty(), es), terms_of(c))
}

fn contains_key_of(keys: &Vec<String>, key: &String) -> (r: bool)
    ensures
        r == sviews(keys@).contains(key@),
{
    let mut i: usize = 0;
    while i < keys.len()
        invariant
            0 <= i <= keys.len(),
            forall|k: int| 0 <= k < i ==> sviews(keys@)[k] != key@,
        decreases keys.len() - i,
    {
        if str_eq(keys[i].as_str(), key.as_str()) {
            assert(sviews(keys@)[i as int] == key@);
            return true;
        }
        i = i + 1;
    }
    false
}

pub fn apple_speech_contextual_strings(
    entries: &Vec<DictionaryEntry>,
    screen_context: &VoiceScreenContext,
) -> (r: Vec<String>)
    ensures
        sviews(r@) == apple_contextual(eviews(entries@), *screen_context),
{
    let ghost es = eviews(entries@);
    let mut values: Vec<String> = Vec::new();
    let mut keys: Vec<String> = Vec::new();
    let mut i: usize = 0;
    assert(sviews(keys@) =~= term_keys(sviews(values@)));
    assert(es.take(0) =~= Seq::<EntryView>::empty());
    while i < entries.len()
        invariant
            0 <= i <= entries.len(),
            es == eviews(entries@),
            keyed(values@, keys@),
            sviews(values@) == push_entry_strings(Seq::empty(), es.take(i as int)),
        decreases entries.len() - i,
    {
        assert(es.take(i + 1).drop_last() =~= es.take(i as int));
        let ghost acc = sviews(values@);
        if entries[i].enabled && values.len() < APPLE_SPEECH_CONTEXTUAL_STRINGS_MAX {
            let t = trim_chars(&chars_of(entries[i].preferred.as_str()));
            if t.len() > 0 && t.len() <= 40 {
                let s = string_from_chars(&t);
                let key = crate::screen_context::lowercase(s.as_str());
                if !contains_key_of(&keys, &key) {
                    let ghost k = sviews(keys@);
                    values.push(s);
                    keys.push(key);
                    assert(sviews(values@) =~= acc.push(t@));
                    assert(sviews(keys@) =~= k.push(lowercase_of(t@)));
                    assert(term_keys(sviews(values@)) =~= term_keys(acc).push(lowercase_of(t@)));
                }
            }
        }
        i = i + 1;
    }
    assert(es.take(entries.len() as int) =~= es);
    let terms = screen_context_terms(screen_context);
    let ghost ts = sviews(terms@);
    let ghost base = sviews(values@);
    let mut j: usize = 0;
    assert(ts.take(0) =~= Seq::<Seq<char>>::empty());
    while j < terms.len()
        invariant
            0 <= j <= terms.len(),
            ts == sviews(terms@),
            keyed(values@, keys@),
            sviews(values@) == push_screen_strings(base, ts.take(j as int)),
        decreases terms.len() - j,
    {
        assert(ts.take(j + 1).drop_last() =~= ts.take(j as int));
        let ghost acc = sviews(values@);
        if values.len() < APPLE_SPEECH_CONTEXTUAL_STRINGS_MAX {
            let key = crate::screen_context::lowercase(terms[j].as_str());
            if !contains_key_of(&keys, &key) {
                let ghost k = sviews(keys@);
                let v = terms[j].clone();
                values.push(v);
                keys.push(key);
                assert(sviews(values@) =~= acc.push(ts[j as int]));
                assert(sviews(keys@) =~= k.push(lowercase_of(ts[j as int])));
                assert(term_keys(sviews(values@)) =~= term_keys(acc).push(lowercase_of(ts[j as int])));
            }
        }
        j = j + 1;
    }
    assert(ts.take(terms.len() as int) =~= ts);
    values
}

/// The message when the helper answered but not with a transcript: its
/// error, else its reason, else a generic one.
pub open spec fn helper_failure_message(response: AppleSpeechHelperResponse) -> Seq<char> {
    match response.error {
        Some(e) => e@,
        None => match response.reason {
            Some(r) => r@,
            None => "Apple SpeechAnalyzer helperが失敗しました。"@,
        },
    }
}

pub open spec fn empty_transcript_message() -> Seq<char> {
    "Apple SpeechAnalyzerのライブ文字起こし結果が空でした。"@
}

/// The live transcript in the helper's answer: trimmed, and not empty.
pub fn apple_transcript_from_helper(response: AppleSpeechHelperResponse) -> (r: Result<String, String>)
    ensures
        !response.ok ==> (r matches Err(e) && e@ == helper_failure_message(response)),
        response.ok ==> match response.transcript {
            Some(t) => if trim(t@).len() > 0 {
                r matches Ok(x) && x@ == trim(t@)
            } else {
                r matches Err(e) && e@ == empty_transcript_message()
            },
            None => r matches Err(e) && e@ == empty_transcript_message(),
        },
{
    if !response.ok {
        return match response.error {
            Some(e) => Err(e),
            None => match response.reason {
                Some(r) => Err(r),
                None => Err(owned("Apple SpeechAnalyzer helperが失敗しました。")),
            },
        };
    }
    match response.transcript {
        Some(t) => {
            let trimmed = crate::text::trim_str(t.as_str());
            if is_blank_str(trimmed.as_str()) {
                proof {
                    crate::text::lemma_trim_idempotent(t@);
                    crate::text::lemma_trim_empty_iff_blank(trim(t@));
                }
                Err(owned("Apple SpeechAnalyzerのライブ文字起こし結果が空でした。"))
            } else {
                proof {
                    crate::text::lemma_trim_idempotent(t@);
                }
                Ok(trimmed)
            }
        },
        None => Err(owned("Apple SpeechAnalyzerのライブ文字起こし結果が空でした。")),
    }
}

/// What a failed helper run reports: its error output, else its standard
/// output (both already trimmed), else the exit status.
pub open spec fn helper_exit_detail(stdout: Seq<char>, stderr: Seq<char>, status: Seq<char>) -> Seq<char> {
    let detail = if stderr.len() == 0 {
        stdout
    } else {
        stderr
    };
    if is_blank(detail) {
        "Apple SpeechAnalyzer helperが失敗しました: "@ + status
    } else {
        detail
    }
}

pub fn apple_helper_exit_message(stdout: &str, stderr: &str, status: &str) -> (r: String)
    ensures
        r@ == helper_exit_detail(stdout@, stderr@, status@),
{
    let err_chars = chars_of(stderr);
    let detail = if err_chars.len() == 0 {
        stdout
    } else {
        stderr
    };
    if is_blank_str(detail) {
        let mut v = chars_of("Apple SpeechAnalyzer helperが失敗しました: ");
        append_str_chars(&mut v, status);
        string_from_chars(&v)
    } else {
        owned(detail)
    }
}

} // verus!
