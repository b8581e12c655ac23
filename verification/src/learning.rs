//! Learning dictionary corrections from the edits a user makes right after a
//! paste: waiting for the text to settle, and deciding whether the edit is a
//! term correction worth remembering.
use vstd::prelude::*;

use crate::text::{
    all_ascii, all_ascii_chars, chars_eq, chars_of, ends_with, eq_ignore_ascii_case,
    eq_ignore_ascii_case_chars, is_blank, owned, split_whitespace, string_from_chars, trim,
    trim_chars, trim_str, words,
};
use crate::text_diff::{
    changed_span, range_end, ranges_overlap, span_from, span_location, span_to, TextRange,
};

verus! {

pub const DICTIONARY_LEARNING_POLL_INTERVAL_MS: u64 = 250;

pub const DICTIONARY_LEARNING_QUIET_MS: u64 = 2000;

pub const DICTIONARY_LEARNING_MAX_WATCH_MS: u64 = 15000;

pub const MIN_LEARNED_CORRECTION_CHARS: usize = 2;

pub const MAX_LEARNED_CORRECTION_CHARS: usize = 40;

pub const MIN_FULL_INSERT_REWRITE_CHARS: usize = 12;

/// What the watcher knows while it waits for the edited text to settle.
#[derive(Debug, Clone, PartialEq, Eq)]
pub struct DictionaryLearningQuiescence {
    pub baseline_value: String,
    pub last_value: String,
    pub stable_ms: u64,
    pub elapsed_ms: u64,
    pub last_ready_value: Option<String>,
}

#[derive(Debug, Clone, Copy, PartialEq, Eq, Structural)]
pub enum DictionaryLearningQuiescenceStep {
    Continue,
    Ready,
    Expired,
}

/// `a + b`, saturating at `u64::MAX`.
pub open spec fn sat_add(a: u64, b: u64) -> u64 {
    if a + b > u64::MAX {
        u64::MAX
    } else {
        (a + b) as u64
    }
}

impl DictionaryLearningQuiescence {
    /// Watching starts from the text as it was right after the paste.
    pub fn new(baseline_value: &str) -> (r: Self)
        ensures
            r.baseline_value@ == baseline_value@,
            r.last_value@ == baseline_value@,
            r.stable_ms == 0,
            r.elapsed_ms == 0,
            r.last_ready_value is None,
    {
        DictionaryLearningQuiescence {
            baseline_value: owned(baseline_value),
            last_value: owned(baseline_value),
            stable_ms: 0,
            elapsed_ms: 0,
            last_ready_value: None,
        }
    }
}

/// One poll of the watcher: time passes; a changed value restarts the quiet
/// period; past the watch limit the watch expires; a value other than the
/// baseline that stayed unchanged for the quiet period, and was not reported
/// already, is ready.
pub fn advance_dictionary_learning_quiescence(
    state: &mut DictionaryLearningQuiescence,
    current_value: &str,
    poll_ms: u64,
    quiet_ms: u64,
    max_watch_ms: u64,
) -> (r: DictionaryLearningQuiescenceStep)
    ensures
        final(state).baseline_value == old(state).baseline_value,
        final(state).elapsed_ms == sat_add(old(state).elapsed_ms, poll_ms),
        final(state).last_value@ == current_value@,
        final(state).stable_ms == (if current_value@ == old(state).last_value@ {
            sat_add(old(state).stable_ms, poll_ms)
        } else {
            0
        }),
        ({
            let ready_before = if current_value@ == old(state).last_value@ {
                old(state).last_ready_value
            } else {
                None
            };
            let ready_view = match ready_before {
                Some(v) => Some(v@),
                None => None,
            };
            if final(state).elapsed_ms > max_watch_ms {
                r == DictionaryLearningQuiescenceStep::Expired && final(state).last_ready_value
                    == ready_before
            } else if current_value@ != old(state).baseline_value@ && final(state).stable_ms
                >= quiet_ms && ready_view != Some(current_value@) {
                r == DictionaryLearningQuiescenceStep::Ready && (final(state).last_ready_value matches Some(v) && v@ == current_value@)
            } else {
                r == DictionaryLearningQuiescenceStep::Continue && final(state).last_ready_value
                    == ready_before
            }
        }),
{
    state.elapsed_ms = state.elapsed_ms.saturating_add(poll_ms);
    if crate::text::str_eq(current_value, state.last_value.as_str()) {
        state.stable_ms = state.stable_ms.saturating_add(poll_ms);
    } else {
        state.last_value = owned(current_value);
        state.stable_ms = 0;
        state.last_ready_value = None;
    }
    proof {
        assert(state.last_value@ == current_value@);
    }
    if state.elapsed_ms > max_watch_ms {
        return DictionaryLearningQuiescenceStep::Expired;
    }
    let already = match &state.last_ready_value {
        Some(v) => crate::text::str_eq(v.as_str(), current_value),
        None => false,
    };
    if !crate::text::str_eq(current_value, state.baseline_value.as_str()) && state.stable_ms
        >= quiet_ms && !already {
        state.last_ready_value = Some(owned(current_value));
        return DictionaryLearningQuiescenceStep::Ready;
    }
    DictionaryLearningQuiescenceStep::Continue
}

/// Punctuation that marks a sentence rather than a term.
pub open spec fn is_sentence_punct(c: char) -> bool {
    c == '。' || c == '、' || c == '，' || c == ',' || c == '！' || c == '!' || c == '？' || c == '?'
        || c == '；' || c == ';' || c == '：' || c == ':' || c == '\n' || c == '\r'
}

/// Characters that end a Japanese predicate.
pub open spec fn is_predicate_ending(c: char) -> bool {
    c == 'う' || c == 'く' || c == 'ぐ' || c == 'す' || c == 'つ' || c == 'ぬ' || c == 'ぶ' || c == 'む'
        || c == 'る' || c == 'た' || c == 'だ' || c == 'い'
}

pub fn is_sentence_punctuation(ch: char) -> (r: bool)
    ensures
        r == is_sentence_punct(ch),
{
    ch == '。' || ch == '、' || ch == '，' || ch == ',' || ch == '！' || ch == '!' || ch == '？' || ch
        == '?' || ch == '；' || ch == ';' || ch == '：' || ch == ':' || ch == '\n' || ch == '\r'
}

pub fn is_japanese_predicate_ending(ch: char) -> (r: bool)
    ensures
        r == is_predicate_ending(ch),
{
    ch == 'う' || ch == 'く' || ch == 'ぐ' || ch == 'す' || ch == 'つ' || ch == 'ぬ' || ch == 'ぶ' || ch
        == 'む' || ch == 'る' || ch == 'た' || ch == 'だ' || ch == 'い'
}

/// Particles that join a subject or object to a predicate.
pub open spec fn is_particle(c: char) -> bool {
    c == 'を' || c == 'が' || c == 'は'
}

/// Some character is sentence punctuation.
pub open spec fn has_sentence_punct(s: Seq<char>) -> bool {
    exists|i: int| 0 <= i < s.len() && is_sentence_punct(#[trigger] s[i])
}

/// Some character is a particle.
pub open spec fn has_particle(s: Seq<char>) -> bool {
    exists|i: int| 0 <= i < s.len() && is_particle(#[trigger] s[i])
}

/// Polite or plain sentence endings.
pub open spec fn sentence_endings() -> Seq<Seq<char>> {
    seq![
        "です"@,
        "ます"@,
        "でした"@,
        "ました"@,
        "ですね"@,
        "ですよ"@,
        "でしょう"@,
        "ください"@,
        "ません"@,
        "だよ"@,
        "だね"@,
    ]
}

/// A text that reads as a sentence rather than a term: it has sentence
/// punctuation, more than three words, a sentence ending, or a particle
/// followed by a predicate ending.
pub open spec fn sentence_like(value: Seq<char>) -> bool {
    let v = trim(value);
    ||| has_sentence_punct(v)
    ||| words(v).len() > 3
    ||| (v.len() >= 6 && exists|k: int|
        0 <= k < sentence_endings().len() && ends_with(v, #[trigger] sentence_endings()[k]))
    ||| (v.len() >= 6 && has_particle(v) && is_predicate_ending(v.last()))
}

fn any_char(v: &Vec<char>, which: u8) -> (r: bool)
    requires
        which < 2,
    ensures
        which == 0 ==> r == has_sentence_punct(v@),
        which == 1 ==> r == has_particle(v@),
{
    let mut i: usize = 0;
    while i < v.len()
        invariant
            0 <= i <= v.len(),
            which < 2,
            which == 0 ==> forall|k: int| 0 <= k < i ==> !is_sentence_punct(#[trigger] v@[k]),
            which == 1 ==> forall|k: int| 0 <= k < i ==> !is_particle(#[trigger] v@[k]),
        decreases v.len() - i,
    {
        let c = v[i];
        let hit = if which == 0 {
            is_sentence_punctuation(c)
        } else {
            c == 'を' || c == 'が' || c == 'は'
        };
        if hit {
            return true;
        }
        i = i + 1;
    }
    false
}

/// Whether a text reads as a sentence rather than a term.
pub fn is_sentence_like_correction_value(value: &str) -> (r: bool)
    ensures
        r == sentence_like(value@),
{
    let raw = chars_of(value);
    let v = trim_chars(&raw);
    if any_char(&v, 0) {
        return true;
    }
    let ws = split_whitespace(&v);
    assert(crate::text::vviews(ws@).len() == ws@.len());
    if ws.len() > 3 {
        assert(v@ == trim(value@));
        assert(words(trim(value@)).len() > 3);
        return true;
    }
    let ghost tv = trim(value@);
    if v.len() >= 6 {
        let endings = [
            "です",
            "ます",
            "でした",
            "ました",
            "ですね",
            "ですよ",
            "でしょう",
            "ください",
            "ません",
            "だよ",
            "だね",
        ];
        let mut k: usize = 0;
        while k < 11
            invariant
                0 <= k <= 11,
                v@ == tv,
                tv == trim(value@),
                v.len() >= 6,
                forall|j: int| 0 <= j < 11 ==> (#[trigger] endings@[j])@ == sentence_endings()[j],
                forall|j: int| 0 <= j < k ==> !ends_with(tv, #[trigger] sentence_endings()[j]),
            decreases 11 - k,
        {
            let e = chars_of(endings[k]);
            if e.len() <= v.len() && crate::text::occurs_at_exec(&v, &e, v.len() - e.len()) {
                assert(ends_with(tv, sentence_endings()[k as int]));
                return true;
            }
            assert(!ends_with(tv, sentence_endings()[k as int]));
            k = k + 1;
        }
        assert(v@ == trim(value@));
        if any_char(&v, 1) && is_japanese_predicate_ending(v[v.len() - 1]) {
            assert(v@.last() == v@[v.len() - 1]);
            assert(has_particle(trim(value@)));
            assert(is_predicate_ending(trim(value@).last()));
            assert(trim(value@).len() >= 6);
            assert(sentence_like(value@));
            return true;
        }
    }
    false
}

/// How much of the inserted range the edit covers, as a share of at least 80%.
pub open spec fn covers_most(changed: TextRange, inserted: TextRange) -> bool {
    let start = if changed.location > inserted.location {
        changed.location as int
    } else {
        inserted.location as int
    };
    let end = if range_end(changed) < range_end(inserted) {
        range_end(changed)
    } else {
        range_end(inserted)
    };
    inserted.length != 0 && end > start && (end - start) * 100 >= inserted.length * 80
}

/// The edit covers at least 80% of the inserted range.
pub fn covers_most_inserted_range(changed_range: TextRange, inserted_range: TextRange) -> (r: bool)
    ensures
        r == covers_most(changed_range, inserted_range),
{
    if inserted_range.length == 0 {
        return false;
    }
    let overlap_start = if changed_range.location > inserted_range.location {
        changed_range.location
    } else {
        inserted_range.location
    };
    let ce = changed_range.end();
    let ie = inserted_range.end();
    let overlap_end = if ce < ie {
        ce
    } else {
        ie
    };
    if overlap_end <= overlap_start {
        return false;
    }
    let overlap = (overlap_end - overlap_start) as u128;
    overlap * 100 >= (inserted_range.length as u128) * 80
}

/// An edit that is worth learning as a term correction.
pub open spec fn learnable(from: Seq<char>, to: Seq<char>, changed: TextRange, inserted: TextRange) -> bool {
    &&& from.len() >= MIN_LEARNED_CORRECTION_CHARS && to.len() >= MIN_LEARNED_CORRECTION_CHARS
    &&& from.len() <= MAX_LEARNED_CORRECTION_CHARS && to.len() <= MAX_LEARNED_CORRECTION_CHARS
    &&& !(all_ascii(from) && all_ascii(to) && eq_ignore_ascii_case(from, to))
    &&& !sentence_like(from) && !sentence_like(to)
    &&& !(covers_most(changed, inserted) && (from.len() >= MIN_FULL_INSERT_REWRITE_CHARS || to.len()
        >= MIN_FULL_INSERT_REWRITE_CHARS))
}

/// Whether an edit is worth learning: both sides between 2 and 40 characters,
/// not a mere ASCII case change, not sentence-like, and not a rewrite of most
/// of a long insertion.
pub fn is_learnable_correction(
    from: &str,
    to: &str,
    changed_range: TextRange,
    inserted_range: TextRange,
) -> (r: bool)
    ensures
        r == learnable(from@, to@, changed_range, inserted_range),
{
    let f = chars_of(from);
    let t = chars_of(to);
    let from_chars = f.len();
    let to_chars = t.len();
    if from_chars < MIN_LEARNED_CORRECTION_CHARS || to_chars < MIN_LEARNED_CORRECTION_CHARS {
        return false;
    }
    if from_chars > MAX_LEARNED_CORRECTION_CHARS || to_chars > MAX_LEARNED_CORRECTION_CHARS {
        return false;
    }
    if all_ascii_chars(&f) && all_ascii_chars(&t) && eq_ignore_ascii_case_chars(&f, &t) {
        return false;
    }
    if is_sentence_like_correction_value(from) || is_sentence_like_correction_value(to) {
        return false;
    }
    if covers_most_inserted_range(changed_range, inserted_range) && (from_chars
        >= MIN_FULL_INSERT_REWRITE_CHARS || to_chars >= MIN_FULL_INSERT_REWRITE_CHARS) {
        return false;
    }
    true
}

/// The correction learned from going from `baseline` to `current`, if the
/// change touches the inserted range and is learnable.
pub open spec fn learned_correction(baseline: Seq<char>, current: Seq<char>, inserted: TextRange) -> Option<
    (Seq<char>, Seq<char>),
> {
    if baseline == current {
        None
    } else {
        let changed = TextRange {
            location: span_location(baseline, current) as usize,
            length: crate::text::utf16_len(span_from(baseline, current)) as usize,
        };
        let f = trim(span_from(baseline, current));
        let t = trim(span_to(baseline, current));
        if !ranges_overlap(changed, inserted) || f.len() == 0 || t.len() == 0 || f == t || !learnable(
            f,
            t,
            changed,
            inserted,
        ) {
            None
        } else {
            Some((f, t))
        }
    }
}

/// The term correction in the user's edit of a pasted text, if there is one.
pub fn learned_correction_from_values(baseline: &str, current: &str, inserted_range: TextRange) -> (r:
    Option<(String, String)>)
    requires
        baseline@.len() <= usize::MAX / 2,
        current@.len() <= usize::MAX / 2,
    ensures
        match learned_correction(baseline@, current@, inserted_range) {
            Some((f, t)) => r matches Some(p) && p.0@ == f && p.1@ == t,
            None => r is None,
        },
{
    let span = match changed_span(baseline, current) {
        Some(s) => s,
        None => {
            return None;
        },
    };
    if !span.old_range.overlaps(inserted_range) {
        return None;
    }
    let from = trim_str(span.from.as_str());
    let to = trim_str(span.to.as_str());
    let fv = chars_of(from.as_str());
    let tv = chars_of(to.as_str());
    if fv.len() == 0 || tv.len() == 0 || chars_eq(&fv, &tv) {
        return None;
    }
    if !is_learnable_correction(from.as_str(), to.as_str(), span.old_range, inserted_range) {
        return None;
    }
    Some((from, to))
}

/// The value with a displayed placeholder counted as empty text.
pub open spec fn without_placeholder(value: Seq<char>, placeholder: Option<Seq<char>>) -> Seq<char> {
    match placeholder {
        Some(p) => if !is_blank(p) && trim(value) == trim(p) {
            Seq::empty()
        } else {
            value
        },
        None => value,
    }
}

/// A text field that shows only its placeholder holds no text.
pub fn value_without_placeholder(value: String, placeholder: Option<&str>) -> (r: String)
    ensures
        r@ == without_placeholder(
            value@,
            match placeholder {
                Some(p) => Some(p@),
                None => None,
            },
        ),
{
    let p = match placeholder {
        Some(p) => p,
        None => {
            return value;
        },
    };
    let pv = chars_of(p);
    let pt = trim_chars(&pv);
    let vv = chars_of(value.as_str());
    let vt = trim_chars(&vv);
    proof {
        crate::text::lemma_trim_empty_iff_blank(p@);
    }
    if pt.len() > 0 && chars_eq(&vt, &pt) {
        String::new()
    } else {
        value
    }
}

/// A correction is learned only from an edit that touches the pasted text:
/// whenever one is learned, the changed part of the text before the edit
/// overlaps the inserted range, the two sides are the trimmed old and new
/// texts of that change, both of 2 to 40 characters and different (and not
/// only in ASCII case), neither reads as a sentence, and an edit wholly
/// outside the inserted range learns nothing.
pub proof fn lemma_learning_needs_edit_in_inserted(baseline: Seq<char>, current: Seq<char>, inserted: TextRange)
    ensures
        ({
            let changed = TextRange {
                location: span_location(baseline, current) as usize,
                length: crate::text::utf16_len(span_from(baseline, current)) as usize,
            };
            &&& learned_correction(baseline, current, inserted) matches Some(p) ==> {
                &&& baseline != current
                &&& ranges_overlap(changed, inserted)
                &&& p.0 == trim(span_from(baseline, current))
                &&& p.1 == trim(span_to(baseline, current))
                &&& p.0.len() > 0 && p.1.len() > 0 && p.0 != p.1
                &&& 2 <= p.0.len() <= 40 && 2 <= p.1.len() <= 40
                &&& !(all_ascii(p.0) && all_ascii(p.1) && eq_ignore_ascii_case(p.0, p.1))
                &&& !sentence_like(p.0) && !sentence_like(p.1)
            }
            &&& !ranges_overlap(changed, inserted) ==> learned_correction(baseline, current, inserted) is None
        }),
{
}

} // verus!
