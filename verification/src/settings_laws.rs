//! What repaired settings satisfy: their voice modes and their languages.
use vstd::prelude::*;
use crate::settings::{
    assigned_id, cleaned_profile, cleaned_profiles_from, custom_id, default_profile_view,
    ensured_active_id, ensured_profiles, err_duplicate_id, err_empty_name, err_missing_transcript,
    filled_profiles, first_profile_error, has_profile_id, insert_by_order, mode_profiles_error,
    profile_error,
    insert_position, lemma_insert_by_order, renumbered, sort_by_order, with_default_profile,
    repaired_target, sanitized, pviews, default_google_cloud_region_text, AppSettings, ProfileView, UiLanguage, VoiceModePresetKey, DEFAULT_VOICE_MODE_ID,
};
use crate::text::{
    decimal, is_blank, is_digit, is_ws, lemma_decimal_digits, lemma_trim_bounds,
    lemma_trim_idempotent, trim,
};

verus! {

/// A mode that keeps a usable id (not blank, and trimmed), and that is the
/// built-in, undeletable default preset when its id is the default one.
pub open spec fn kept_usable(p: ProfileView) -> bool {
    &&& p.id.len() > 0
    &&& !is_blank(p.id)
    &&& trim(p.id) == p.id
    &&& p.id == DEFAULT_VOICE_MODE_ID@ ==> !p.deletable && p.preset_key == Some(
        VoiceModePresetKey::Default,
    )
}

proof fn lemma_trim_keeps(s: Seq<char>)
    requires
        s.len() > 0,
        !is_ws(s[0]),
        !is_ws(s[s.len() - 1]),
    ensures
        trim(s) == s,
{
    lemma_trim_bounds(s);
    if crate::text::trim_lo(s) > 0 {
        assert(is_ws(s[0]));
    }
    if crate::text::trim_hi(s) < s.len() {
        assert(is_ws(s[s.len() - 1]));
    }
    assert(trim(s) =~= s);
}

proof fn lemma_default_id_trimmed()
    ensures
        trim(DEFAULT_VOICE_MODE_ID@) == DEFAULT_VOICE_MODE_ID@,
        DEFAULT_VOICE_MODE_ID@.len() > 0,
{
    reveal_strlit("default");
    let s = DEFAULT_VOICE_MODE_ID@;
    assert(s[0] == 'd');
    assert(s[s.len() - 1] == 't');
    lemma_trim_keeps(s);
}

proof fn lemma_custom_id_nonempty(i: int)
    ensures
        custom_id(i).len() > 0,
        !is_blank(custom_id(i)),
        trim(custom_id(i)) == custom_id(i),
{
    reveal_strlit("custom-");
    let c = custom_id(i);
    assert(c[0] == 'c');
    lemma_decimal_digits(i as nat);
    let d = decimal(i as nat);
    assert(c[c.len() - 1] == d[d.len() - 1]);
    assert(is_digit(d[d.len() - 1]));
    lemma_trim_keeps(c);
}

proof fn lemma_trimmed_not_blank(s: Seq<char>)
    requires
        trim(s).len() > 0,
    ensures
        !is_blank(trim(s)),
{
    lemma_trim_bounds(s);
    assert(trim(s)[0] == s[crate::text::trim_lo(s)]);
}

proof fn lemma_cleaned_usable(ps: Seq<ProfileView>, i: int, seen: Seq<Seq<char>>)
    requires
        0 <= i,
    ensures
        cleaned_profiles_from(ps, i, seen).len() == if i < ps.len() {
            ps.len() - i
        } else {
            0
        },
        forall|k: int|
            0 <= k < cleaned_profiles_from(ps, i, seen).len() ==> kept_usable(
                #[trigger] cleaned_profiles_from(ps, i, seen)[k],
            ),
    decreases ps.len() - i,
{
    if i < ps.len() {
        let id = assigned_id(ps[i], i, seen);
        lemma_custom_id_nonempty(i);
        if trim(ps[i].id).len() > 0 {
            lemma_trimmed_not_blank(ps[i].id);
            lemma_trim_idempotent(ps[i].id);
        }
        let x = cleaned_profile(ps[i], id);
        let rest = cleaned_profiles_from(ps, i + 1, seen.push(id));
        lemma_cleaned_usable(ps, i + 1, seen.push(id));
        let c = cleaned_profiles_from(ps, i, seen);
        assert(c == seq![x] + rest);
        assert(kept_usable(x));
        assert forall|k: int| 0 <= k < c.len() implies kept_usable(#[trigger] c[k]) by {
            if k > 0 {
                assert(c[k] == rest[k - 1]);
            }
        }
    }
}

proof fn lemma_cleaned_keeps_default(ps: Seq<ProfileView>, i: int, seen: Seq<Seq<char>>)
    requires
        0 <= i,
        exists|j: int| i <= j < ps.len() && (#[trigger] ps[j]).id == DEFAULT_VOICE_MODE_ID@,
    ensures
        seen.contains(DEFAULT_VOICE_MODE_ID@) || has_profile_id(
            cleaned_profiles_from(ps, i, seen),
            DEFAULT_VOICE_MODE_ID@,
        ),
    decreases ps.len() - i,
{
    let d = DEFAULT_VOICE_MODE_ID@;
    let id = assigned_id(ps[i], i, seen);
    let x = cleaned_profile(ps[i], id);
    let rest = cleaned_profiles_from(ps, i + 1, seen.push(id));
    let c = cleaned_profiles_from(ps, i, seen);
    assert(c == seq![x] + rest);
    assert(c[0] == x);
    if ps[i].id == d {
        if !seen.contains(d) {
            lemma_default_id_trimmed();
            assert(id == d);
        }
    } else {
        let j = choose|j: int| i <= j < ps.len() && (#[trigger] ps[j]).id == d;
        assert(j != i);
        assert(ps[j].id == d);
        lemma_cleaned_keeps_default(ps, i + 1, seen.push(id));
        if seen.push(id).contains(d) && !seen.contains(d) {
            let m = choose|m: int| 0 <= m < seen.push(id).len() && seen.push(id)[m] == d;
            if m < seen.len() {
                assert(seen[m] == seen.push(id)[m]);
                assert(seen.contains(d));
            } else {
                assert(seen.push(id)[m] == id);
            }
            assert(id == d);
        }
        if has_profile_id(rest, d) {
            let m = choose|m: int| 0 <= m < rest.len() && (#[trigger] rest[m]).id == d;
            assert(c[m + 1] == rest[m]);
        }
    }
}

proof fn lemma_insert_contains(s: Seq<ProfileView>, p: ProfileView)
    ensures
        insert_by_order(s, p).len() == s.len() + 1,
        forall|x: ProfileView| #[trigger]
            insert_by_order(s, p).contains(x) <==> (s.contains(x) || x == p),
{
    lemma_insert_by_order(s, p);
    let n = s.len() as int;
    let j = insert_position(s, p, n);
    let r = insert_by_order(s, p);
    assert(r.len() == n + 1);
    assert forall|x: ProfileView| r.contains(x) implies s.contains(x) || x == p by {
        let k = choose|k: int| 0 <= k < r.len() && r[k] == x;
        if k < j {
            assert(s[k] == x);
        } else if k > j {
            assert(s[k - 1] == x);
        }
    }
    assert forall|x: ProfileView| s.contains(x) || x == p implies r.contains(x) by {
        if x == p {
            assert(r[j] == p);
        } else {
            let m = choose|m: int| 0 <= m < s.len() && s[m] == x;
            if m < j {
                assert(r[m] == x);
            } else {
                assert(r[m + 1] == x);
            }
        }
    }
}

proof fn lemma_sort_contains(ps: Seq<ProfileView>)
    ensures
        sort_by_order(ps).len() == ps.len(),
        forall|x: ProfileView| #[trigger] sort_by_order(ps).contains(x) <==> ps.contains(x),
    decreases ps.len(),
{
    if ps.len() > 0 {
        let t = ps.drop_last();
        lemma_sort_contains(t);
        lemma_insert_contains(sort_by_order(t), ps.last());
        assert forall|x: ProfileView| #[trigger] sort_by_order(ps).contains(x) <==> ps.contains(
            x,
        ) by {
            if ps.contains(x) && x != ps.last() {
                let m = choose|m: int| 0 <= m < ps.len() && ps[m] == x;
                assert(m != ps.len() - 1);
                assert(t[m] == x);
                assert(t.contains(x));
            }
            if t.contains(x) {
                let m = choose|m: int| 0 <= m < t.len() && t[m] == x;
                assert(ps[m] == x);
            }
            if x == ps.last() {
                assert(ps[ps.len() - 1] == x);
            }
        }
    }
}

/// After `ensure_mode_profiles` the list of voice modes is never empty, holds
/// the default mode, which cannot be deleted, gives every mode a non-empty id,
/// numbers the modes' orders by their positions, and the active mode id names
/// one of the modes.
pub proof fn lemma_ensured_profiles_consistent(
    ps: Seq<ProfileView>,
    system: Option<Seq<char>>,
    user: Option<Seq<char>>,
    active: Seq<char>,
)
    requires
        ps.len() + 6 <= i64::MAX,
    ensures
        ({
            let out = ensured_profiles(ps, system, user);
            &&& out.len() > 0
            &&& has_profile_id(out, DEFAULT_VOICE_MODE_ID@)
            &&& has_profile_id(out, ensured_active_id(out, active))
            &&& forall|i: int| 0 <= i < out.len() ==> kept_usable(#[trigger] out[i])
            &&& forall|i: int| 0 <= i < out.len() ==> (#[trigger] out[i]).order == i
        }),
{
    let d = DEFAULT_VOICE_MODE_ID@;
    let filled = filled_profiles(ps, system, user);
    assert(filled.len() > 0 && filled.len() <= ps.len() + 5);
    let wd = with_default_profile(filled);
    if !has_profile_id(filled, d) {
        assert(wd[0] == default_profile_view());
        assert(wd[0].id == d);
    }
    let j = choose|j: int| 0 <= j < wd.len() && (#[trigger] wd[j]).id == d;
    assert(0 <= j < wd.len() && wd[j].id == d);
    lemma_cleaned_keeps_default(wd, 0, Seq::empty());
    lemma_cleaned_usable(wd, 0, Seq::empty());
    let cleaned = cleaned_profiles_from(wd, 0, Seq::empty());
    let sorted = sort_by_order(cleaned);
    lemma_sort_contains(cleaned);
    let out = renumbered(sorted);
    assert(out == ensured_profiles(ps, system, user));
    assert(out.len() == wd.len());
    assert(out.len() > 0);
    let k = choose|k: int| 0 <= k < cleaned.len() && (#[trigger] cleaned[k]).id == d;
    assert(cleaned.contains(cleaned[k]));
    assert(sorted.contains(cleaned[k]));
    let m = choose|m: int| 0 <= m < sorted.len() && sorted[m] == cleaned[k];
    assert(out[m].id == d);
    assert(has_profile_id(out, d));
    assert forall|i: int| 0 <= i < out.len() implies kept_usable(#[trigger] out[i]) by {
        assert(sorted.contains(sorted[i]));
        assert(cleaned.contains(sorted[i]));
        let q = choose|q: int| 0 <= q < cleaned.len() && cleaned[q] == sorted[i];
        assert(kept_usable(cleaned[q]));
    }
    assert forall|i: int| 0 <= i < out.len() implies (#[trigger] out[i]).order == i by {
        assert(i <= i64::MAX);
    }
}

/// A problem in the modes' contents: a repeated id, an empty name, or a
/// formatting mode whose user prompt lacks the transcript placeholder.
pub open spec fn content_error(ps: Seq<ProfileView>, e: Seq<char>) -> bool {
    ||| e == err_duplicate_id()
    ||| e == err_empty_name()
    ||| exists|k: int| 0 <= k < ps.len() && e == err_missing_transcript(#[trigger] ps[k].name)
}

proof fn lemma_first_error_is_content(ps: Seq<ProfileView>, i: int)
    requires
        0 <= i,
        forall|k: int| 0 <= k < ps.len() ==> kept_usable(#[trigger] ps[k]),
    ensures
        first_profile_error(ps, i) matches Some(e) ==> content_error(ps, e),
    decreases ps.len() - i,
{
    if i < ps.len() {
        assert(kept_usable(ps[i]));
        match profile_error(ps, i) {
            Some(e) => {
                if e != err_duplicate_id() && e != err_empty_name() {
                    assert(e == err_missing_transcript(ps[i].name));
                }
            },
            None => {
                lemma_first_error_is_content(ps, i + 1);
            },
        }
    }
}

/// After repair, validation can only object to the modes' contents (a
/// repeated id, an empty name, a prompt without the transcript placeholder):
/// never to a missing list, an empty id, a deletable or missing default mode,
/// or a missing active mode.
pub proof fn lemma_repaired_modes_pass_structure_checks(
    ps: Seq<ProfileView>,
    system: Option<Seq<char>>,
    user: Option<Seq<char>>,
    active: Seq<char>,
)
    requires
        ps.len() + 6 <= i64::MAX,
    ensures
        ({
            let out = ensured_profiles(ps, system, user);
            mode_profiles_error(out, ensured_active_id(out, active)) matches Some(e) ==> content_error(
                out,
                e,
            )
        }),
{
    lemma_ensured_profiles_consistent(ps, system, user, active);
    let out = ensured_profiles(ps, system, user);
    lemma_first_error_is_content(out, 0);
}

/// Repaired settings translate between two different languages.
pub proof fn lemma_repaired_languages_differ(source: UiLanguage, target: UiLanguage)
    ensures
        repaired_target(source, target) != source,
{
}

/// Settings after `sanitize` are consistent, whatever was read: the source
/// language stays and the target differs from it, the recording limit lies
/// within 5..=600 s and the double-tap threshold within 100..=2000 ms (values
/// in range kept), the region is not blank, the modes hold the default mode,
/// every mode has a trimmed, non-empty id, the default mode is the
/// undeletable default preset, the orders are the positions, and the active
/// mode id names a mode.
pub proof fn lemma_sanitized_settings_consistent(old: AppSettings, new: AppSettings)
    requires
        sanitized(new, old),
        old.voice.mode_profiles.len() + 6 <= i64::MAX,
    ensures
        new.translation.source_language == old.translation.source_language,
        new.translation.target_language != new.translation.source_language,
        5 <= new.voice.max_recording_seconds <= 600,
        5 <= old.voice.max_recording_seconds <= 600 ==> new.voice.max_recording_seconds
            == old.voice.max_recording_seconds,
        100 <= new.app.double_tap_threshold_ms <= 2000,
        100 <= old.app.double_tap_threshold_ms <= 2000 ==> new.app.double_tap_threshold_ms
            == old.app.double_tap_threshold_ms,
        !is_blank(new.voice.google_cloud_region@),
        ({
            let ps = pviews(new.voice.mode_profiles@);
            &&& has_profile_id(ps, DEFAULT_VOICE_MODE_ID@)
            &&& forall|i: int| 0 <= i < ps.len() ==> kept_usable(#[trigger] ps[i])
            &&& forall|i: int| 0 <= i < ps.len() ==> (#[trigger] ps[i]).order == i
            &&& has_profile_id(ps, new.voice.active_mode_profile_id@)
        }),
{
    lemma_repaired_languages_differ(old.translation.source_language, old.translation.target_language);
    lemma_ensured_profiles_consistent(
        pviews(old.voice.mode_profiles@),
        crate::settings::cleaned_override(old.prompts.overrides.dictation_system),
        crate::settings::cleaned_override(old.prompts.overrides.dictation_user),
        old.voice.active_mode_profile_id@,
    );
    if is_blank(old.voice.google_cloud_region@) {
        reveal_strlit("asia-northeast1");
        assert(default_google_cloud_region_text()[0] == 'a');
    }
}

} // verus!
