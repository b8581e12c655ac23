//! The API usage log: its services, labels, ids, how long events are kept,
//! and how Gemini token counts split before they are priced.
use vstd::prelude::*;

use crate::text::{chars_of, decimal, owned, push_decimal, string_from_chars};

verus! {

/// A paid API call the app makes.
#[derive(Debug, Clone, Copy, PartialEq, Eq, Structural)]
pub enum UsageService {
    GeminiTranslation,
    GeminiFinalization,
    GeminiAudioInput,
    OpenAiTranscription,
    GoogleSpeechToText,
}

/// Days that usage events are kept.
pub const RETENTION_DAYS: u64 = 90;

/// The retention in milliseconds.
pub const RETENTION_MS: u64 = 7776000000;

pub proof fn lemma_retention_ms()
    ensures
        RETENTION_MS == RETENTION_DAYS * 24 * 60 * 60 * 1000,
{
}

/// The label shown for a service's calls.
pub open spec fn operation_text(service: UsageService) -> Seq<char> {
    match service {
        UsageService::GeminiTranslation => "翻訳"@,
        UsageService::GeminiFinalization => "音声整形"@,
        UsageService::GeminiAudioInput => "Gemini音声入力"@,
        UsageService::OpenAiTranscription => "OpenAI文字起こし"@,
        UsageService::GoogleSpeechToText => "Google Speech-to-Text"@,
    }
}

pub fn operation_label(service: UsageService) -> (r: String)
    ensures
        r@ == operation_text(service),
{
    match service {
        UsageService::GeminiTranslation => owned("翻訳"),
        UsageService::GeminiFinalization => owned("音声整形"),
        UsageService::GeminiAudioInput => owned("Gemini音声入力"),
        UsageService::OpenAiTranscription => owned("OpenAI文字起こし"),
        UsageService::GoogleSpeechToText => owned("Google Speech-to-Text"),
    }
}

/// The oldest time kept: `now` minus the retention, or 0.
pub open spec fn cutoff(now: u64) -> u64 {
    if now < RETENTION_MS {
        0
    } else {
        (now - RETENTION_MS) as u64
    }
}

pub fn retention_cutoff(now: u64) -> (r: u64)
    ensures
        r == cutoff(now),
{
    now.saturating_sub(RETENTION_MS)
}

/// The positions of the events to keep at `now`: those no older than the
/// retention, in order.
pub open spec fn kept_positions(timestamps: Seq<u64>, now: u64) -> Seq<int>
    decreases timestamps.len(),
{
    if timestamps.len() == 0 {
        Seq::empty()
    } else {
        let p = kept_positions(timestamps.drop_last(), now);
        if timestamps.last() >= cutoff(now) {
            p.push(timestamps.len() - 1)
        } else {
            p
        }
    }
}

/// Which usage events survive pruning at `now`, by their timestamps.
pub fn kept_usage_events(timestamps: &Vec<u64>, now: u64) -> (r: Vec<usize>)
    ensures
        r@.map_values(|k: usize| k as int) == kept_positions(timestamps@, now),
{
    let c = retention_cutoff(now);
    let mut out: Vec<usize> = Vec::new();
    let mut i: usize = 0;
    assert(timestamps@.take(0) =~= Seq::<u64>::empty());
    assert(out@.map_values(|k: usize| k as int) =~= Seq::<int>::empty());
    while i < timestamps.len()
        invariant
            0 <= i <= timestamps.len(),
            c == cutoff(now),
            out@.map_values(|k: usize| k as int) == kept_positions(timestamps@.take(i as int), now),
        decreases timestamps.len() - i,
    {
        assert(timestamps@.take(i + 1).drop_last() =~= timestamps@.take(i as int));
        let ghost before = out@.map_values(|k: usize| k as int);
        if timestamps[i] >= c {
            out.push(i);
            assert(out@.map_values(|k: usize| k as int) =~= before.push(i as int));
        }
        i = i + 1;
    }
    assert(timestamps@.take(timestamps.len() as int) =~= timestamps@);
    out
}

/// A usage event's id: "usage-", the time, '-', the sequence number.
pub fn usage_event_id(now: u64, seq: u64) -> (r: String)
    ensures
        r@ == "usage-"@ + decimal(now as nat) + "-"@ + decimal(seq as nat),
{
    let mut v = chars_of("usage-");
    push_decimal(&mut v, now);
    v.push('-');
    push_decimal(&mut v, seq);
    proof {
        reveal_strlit("-");
    }
    assert(v@ =~= "usage-"@ + decimal(now as nat) + "-"@ + decimal(seq as nat));
    string_from_chars(&v)
}

/// How Gemini prompt tokens are priced: text tokens, audio tokens (at most
/// the prompt), and whether the prompt is long (over 200,000 tokens).
#[derive(Debug, Clone, Copy, PartialEq, Eq, Structural)]
pub struct GeminiTokenSplit {
    pub text_input_tokens: u64,
    pub audio_tokens: u64,
    pub long_context: bool,
}

pub fn gemini_token_split(prompt_tokens: u64, audio_input_tokens: Option<u64>) -> (r:
    GeminiTokenSplit)
    ensures
        r.audio_tokens == (match audio_input_tokens {
            Some(a) => if a < prompt_tokens {
                a
            } else {
                prompt_tokens
            },
            None => 0,
        }),
        r.text_input_tokens == prompt_tokens - r.audio_tokens,
        r.long_context == (prompt_tokens > 200000),
{
    let audio = match audio_input_tokens {
        Some(a) => if a < prompt_tokens {
            a
        } else {
            prompt_tokens
        },
        None => 0,
    };
    GeminiTokenSplit {
        text_input_tokens: prompt_tokens.saturating_sub(audio),
        audio_tokens: audio,
        long_context: prompt_tokens > 200000,
    }
}

/// Pruning keeps exactly the events no older than the retention window.
pub proof fn lemma_kept_positions_exact(timestamps: Seq<u64>, now: u64, i: int)
    requires
        0 <= i < timestamps.len(),
    ensures
        kept_positions(timestamps, now).contains(i) <==> timestamps[i] >= cutoff(now),
    decreases timestamps.len(),
{
    let p = kept_positions(timestamps.drop_last(), now);
    lemma_kept_positions_below(timestamps.drop_last(), now);
    if i < timestamps.len() - 1 {
        lemma_kept_positions_exact(timestamps.drop_last(), now, i);
        if timestamps.last() >= cutoff(now) {
            let q = p.push(timestamps.len() - 1);
            if p.contains(i) {
                let k = choose|k: int| 0 <= k < p.len() && p[k] == i;
                assert(q[k] == i);
            }
            if q.contains(i) {
                let k = choose|k: int| 0 <= k < q.len() && q[k] == i;
                if k < p.len() {
                    assert(p[k] == i);
                }
            }
        }
    } else {
        if timestamps.last() >= cutoff(now) {
            let q = p.push(timestamps.len() - 1);
            assert(q[p.len() as int] == i);
        } else {
            if p.contains(i) {
                let k = choose|k: int| 0 <= k < p.len() && p[k] == i;
                assert(p[k] < timestamps.len() - 1);
            }
        }
    }
}

pub proof fn lemma_kept_positions_below(timestamps: Seq<u64>, now: u64)
    ensures
        forall|k: int|
            0 <= k < kept_positions(timestamps, now).len() ==> 0 <= #[trigger] kept_positions(
                timestamps,
                now,
            )[k] < timestamps.len(),
    decreases timestamps.len(),
{
    if timestamps.len() > 0 {
        lemma_kept_positions_below(timestamps.drop_last(), now);
        let p = kept_positions(timestamps.drop_last(), now);
        assert forall|k: int|
            0 <= k < kept_positions(timestamps, now).len() implies 0 <= #[trigger] kept_positions(
            timestamps,
            now,
        )[k] < timestamps.len() by {
            if k < p.len() {
                assert(kept_positions(timestamps, now)[k] == p[k]);
            }
        }
    }
}

} // verus!
