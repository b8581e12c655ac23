//! The user dictionary: preferred spellings, the misrecognitions that stand
//! for them, and explicit correction rules applied to transcripts.
use vstd::prelude::*;

use crate::settings::result_matches;
use crate::text::{
    append_chars, append_str_chars, chars_eq, chars_of, decimal, is_blank, is_blank_str, join,
    join_chars, owned, push_decimal, replace_all, replace_chars, string_from_chars, sviews, trim,
    trim_chars, trim_str, vviews, lemma_trim_idempotent,
};

verus! {

#[derive(Debug, Clone)]
pub struct DictionaryEntry {
    pub id: String,
    pub preferred: String,
    pub readings: Vec<String>,
    pub aliases: Vec<String>,
    pub corrections: Vec<DictionaryCorrection>,
    pub enabled: bool,
    pub source: DictionarySource,
    pub created_at: u64,
    pub updated_at: u64,
}

/// A rule that rewrites `from` to `to` in a transcript.
#[derive(Debug, Clone, PartialEq, Eq)]
pub struct DictionaryCorrection {
    pub from: String,
    pub to: String,
}

#[derive(Debug, Clone, Copy, PartialEq, Eq, Structural)]
pub enum DictionarySource {
    Manual,
    Learned,
}

/// A correction learned from the user's edit, as reported back.
#[derive(Debug, Clone, PartialEq, Eq)]
pub struct LearnedCorrection {
    pub entry_id: String,
    pub from: String,
    pub to: String,
}

/// What the user typed into the dictionary form.
#[derive(Debug, Clone)]
pub struct DictionaryEntryInput {
    pub preferred: String,
    pub aliases: Option<Vec<String>>,
    pub corrections: Option<Vec<DictionaryCorrection>>,
    pub enabled: bool,
}

/// The outcome of adding several words at once.
#[derive(Debug, Clone)]
pub struct BulkCreateResult {
    pub added: Vec<DictionaryEntry>,
    pub skipped: usize,
}

impl View for DictionaryCorrection {
    type V = (Seq<char>, Seq<char>);

    open spec fn view(&self) -> (Seq<char>, Seq<char>) {
        (self.from@, self.to@)
    }
}

pub open spec fn cviews(cs: Seq<DictionaryCorrection>) -> Seq<(Seq<char>, Seq<char>)> {
    cs.map_values(|c: DictionaryCorrection| c@)
}

/// The mathematical value of a dictionary entry.
#[verifier::ext_equal]
pub ghost struct EntryView {
    pub id: Seq<char>,
    pub preferred: Seq<char>,
    pub readings: Seq<Seq<char>>,
    pub aliases: Seq<Seq<char>>,
    pub corrections: Seq<(Seq<char>, Seq<char>)>,
    pub enabled: bool,
    pub source: DictionarySource,
    pub created_at: u64,
    pub updated_at: u64,
}

impl View for DictionaryEntry {
    type V = EntryView;

    open spec fn view(&self) -> EntryView {
        EntryView {
            id: self.id@,
            preferred: self.preferred@,
            readings: sviews(self.readings@),
            aliases: sviews(self.aliases@),
            corrections: cviews(self.corrections@),
            enabled: self.enabled,
            source: self.source,
            created_at: self.created_at,
            updated_at: self.updated_at,
        }
    }
}

pub open spec fn eviews(es: Seq<DictionaryEntry>) -> Seq<EntryView> {
    es.map_values(|e: DictionaryEntry| e@)
}

/// `v` trimmed and appended unless it is empty or already present.
pub open spec fn push_unique(out: Seq<Seq<char>>, v: Seq<char>) -> Seq<Seq<char>> {
    let t = trim(v);
    if t.len() == 0 || out.contains(t) {
        out
    } else {
        out.push(t)
    }
}

/// The values trimmed, without empty ones and without repeats, in first-seen order.
pub open spec fn unique_values(vs: Seq<Seq<char>>) -> Seq<Seq<char>>
    decreases vs.len(),
{
    if vs.len() == 0 {
        Seq::empty()
    } else {
        push_unique(unique_values(vs.drop_last()), vs.last())
    }
}

/// Some correction in `cs` rewrites `from`.
pub open spec fn has_from(cs: Seq<(Seq<char>, Seq<char>)>, from: Seq<char>) -> bool {
    exists|i: int| 0 <= i < cs.len() && (#[trigger] cs[i]).0 == from
}

/// `c` trimmed and appended unless it is empty, a no-op, or its source text is already ruled.
pub open spec fn add_correction(cs: Seq<(Seq<char>, Seq<char>)>, c: (Seq<char>, Seq<char>)) -> Seq<
    (Seq<char>, Seq<char>),
> {
    let f = trim(c.0);
    let t = trim(c.1);
    if f.len() == 0 || t.len() == 0 || f == t || has_from(cs, f) {
        cs
    } else {
        cs.push((f, t))
    }
}

pub open spec fn normalized_corrections(cs: Seq<(Seq<char>, Seq<char>)>) -> Seq<
    (Seq<char>, Seq<char>),
>
    decreases cs.len(),
{
    if cs.len() == 0 {
        Seq::empty()
    } else {
        add_correction(normalized_corrections(cs.drop_last()), cs.last())
    }
}

/// An entry after `normalize_entry`: trimmed preferred text, readings folded
/// into the de-duplicated aliases, and cleaned correction rules.
pub open spec fn normalized_entry(e: EntryView) -> EntryView {
    EntryView {
        preferred: trim(e.preferred),
        readings: Seq::empty(),
        aliases: unique_values(e.readings + e.aliases),
        corrections: normalized_corrections(e.corrections),
        ..e
    }
}

pub open spec fn err_empty_word() -> Seq<char> {
    "単語を入力してください。"@
}

pub open spec fn err_long_word() -> Seq<char> {
    "単語は100文字以内にしてください。"@
}

pub open spec fn err_long_alias() -> Seq<char> {
    "誤認識した表記は100文字以内にしてください。"@
}

pub open spec fn err_long_rule() -> Seq<char> {
    "補正ルールは100文字以内にしてください。"@
}

/// What is wrong with an entry, if anything.
pub open spec fn entry_error(e: EntryView) -> Option<Seq<char>> {
    if is_blank(e.preferred) {
        Some(err_empty_word())
    } else if e.preferred.len() > 100 {
        Some(err_long_word())
    } else if exists|i: int|
        0 <= i < (e.readings + e.aliases).len() && (#[trigger] (e.readings + e.aliases)[i]).len()
            > 100 {
        Some(err_long_alias())
    } else if exists|i: int|
        0 <= i < e.corrections.len() && ((#[trigger] e.corrections[i]).0.len() > 100
            || e.corrections[i].1.len() > 100) {
        Some(err_long_rule())
    } else {
        None
    }
}

pub(crate) fn clone_strings(v: &Vec<String>) -> (r: Vec<String>)
    ensures
        sviews(r@) == sviews(v@),
{
    let mut r: Vec<String> = Vec::new();
    let mut i: usize = 0;
    while i < v.len()
        invariant
            0 <= i <= v.len(),
            sviews(r@) == sviews(v@).subrange(0, i as int),
        decreases v.len() - i,
    {
        let ghost before = sviews(r@);
        r.push(v[i].clone());
        assert(sviews(r@) =~= before.push(v@[i as int]@));
        assert(sviews(r@) =~= sviews(v@).subrange(0, i + 1));
        i = i + 1;
    }
    assert(sviews(v@).subrange(0, v.len() as int) =~= sviews(v@));
    r
}

fn clone_corrections(v: &Vec<DictionaryCorrection>) -> (r: Vec<DictionaryCorrection>)
    ensures
        cviews(r@) == cviews(v@),
{
    let mut r: Vec<DictionaryCorrection> = Vec::new();
    let mut i: usize = 0;
    while i < v.len()
        invariant
            0 <= i <= v.len(),
            cviews(r@) == cviews(v@).subrange(0, i as int),
        decreases v.len() - i,
    {
        let ghost before = cviews(r@);
        let c = DictionaryCorrection { from: v[i].from.clone(), to: v[i].to.clone() };
        r.push(c);
        assert(cviews(r@) =~= before.push(v@[i as int]@));
        assert(cviews(r@) =~= cviews(v@).subrange(0, i + 1));
        i = i + 1;
    }
    assert(cviews(v@).subrange(0, v.len() as int) =~= cviews(v@));
    r
}

/// An exact copy of an entry.
pub fn clone_entry(e: &DictionaryEntry) -> (r: DictionaryEntry)
    ensures
        r@ == e@,
{
    DictionaryEntry {
        id: e.id.clone(),
        preferred: e.preferred.clone(),
        readings: clone_strings(&e.readings),
        aliases: clone_strings(&e.aliases),
        corrections: clone_corrections(&e.corrections),
        enabled: e.enabled,
        source: e.source,
        created_at: e.created_at,
        updated_at: e.updated_at,
    }
}

fn strings_contain(out: &Vec<String>, t: &Vec<char>) -> (r: bool)
    ensures
        r == sviews(out@).contains(t@),
{
    let mut i: usize = 0;
    while i < out.len()
        invariant
            0 <= i <= out.len(),
            forall|k: int| 0 <= k < i ==> sviews(out@)[k] != t@,
        decreases out.len() - i,
    {
        let v = chars_of(out[i].as_str());
        if chars_eq(&v, t) {
            assert(sviews(out@)[i as int] == t@);
            return true;
        }
        i = i + 1;
    }
    false
}

/// Appends `value`, trimmed, unless it is empty or already present.
pub fn push_unique_exec(out: &mut Vec<String>, value: &str)
    ensures
        sviews(final(out)@) == push_unique(sviews(old(out)@), value@),
{
    let v = chars_of(value);
    let t = trim_chars(&v);
    if t.len() == 0 {
        return ;
    }
    if !strings_contain(out, &t) {
        let ghost before = sviews(out@);
        out.push(string_from_chars(&t));
        assert(sviews(out@) =~= before.push(t@));
    }
}

/// `unique_values` of the concatenation of two lists.
fn unique_values_exec(a: &Vec<String>, b: &Vec<String>) -> (r: Vec<String>)
    ensures
        sviews(r@) == unique_values(sviews(a@) + sviews(b@)),
{
    let ghost all = sviews(a@) + sviews(b@);
    let mut out: Vec<String> = Vec::new();
    let mut i: usize = 0;
    assert(sviews(out@) =~= unique_values(all.take(0)));
    while i < a.len()
        invariant
            0 <= i <= a.len(),
            all == sviews(a@) + sviews(b@),
            sviews(out@) == unique_values(all.take(i as int)),
        decreases a.len() - i,
    {
        push_unique_exec(&mut out, a[i].as_str());
        assert(all.take(i + 1).drop_last() =~= all.take(i as int));
        i = i + 1;
    }
    let mut j: usize = 0;
    while j < b.len()
        invariant
            0 <= j <= b.len(),
            all == sviews(a@) + sviews(b@),
            sviews(out@) == unique_values(all.take(a.len() + j)),
        decreases b.len() - j,
    {
        push_unique_exec(&mut out, b[j].as_str());
        assert(all.take(a.len() + j + 1).drop_last() =~= all.take(a.len() + j));
        assert(all.take(a.len() + j + 1).last() == b@[j as int]@);
        j = j + 1;
    }
    assert(all.take(a.len() + b.len()) =~= all);
    out
}

fn corrections_have_from(cs: &Vec<DictionaryCorrection>, f: &Vec<char>) -> (r: bool)
    ensures
        r == has_from(cviews(cs@), f@),
{
    let mut i: usize = 0;
    while i < cs.len()
        invariant
            0 <= i <= cs.len(),
            forall|k: int| 0 <= k < i ==> cviews(cs@)[k].0 != f@,
        decreases cs.len() - i,
    {
        let v = chars_of(cs[i].from.as_str());
        if chars_eq(&v, f) {
            assert(cviews(cs@)[i as int].0 == f@);
            return true;
        }
        i = i + 1;
    }
    false
}

fn normalize_corrections(cs: &Vec<DictionaryCorrection>) -> (r: Vec<DictionaryCorrection>)
    ensures
        cviews(r@) == normalized_corrections(cviews(cs@)),
{
    let ghost src = cviews(cs@);
    let mut out: Vec<DictionaryCorrection> = Vec::new();
    let mut i: usize = 0;
    assert(cviews(out@) =~= normalized_corrections(src.take(0)));
    while i < cs.len()
        invariant
            0 <= i <= cs.len(),
            src == cviews(cs@),
            cviews(out@) == normalized_corrections(src.take(i as int)),
        decreases cs.len() - i,
    {
        let fv = chars_of(cs[i].from.as_str());
        let tv = chars_of(cs[i].to.as_str());
        let f = trim_chars(&fv);
        let t = trim_chars(&tv);
        assert(src.take(i + 1).drop_last() =~= src.take(i as int));
        if !(f.len() == 0 || t.len() == 0 || chars_eq(&f, &t) || corrections_have_from(&out, &f)) {
            let ghost before = cviews(out@);
            out.push(DictionaryCorrection { from: string_from_chars(&f), to: string_from_chars(&t) });
            assert(cviews(out@) =~= before.push((f@, t@)));
        }
        i = i + 1;
    }
    assert(src.take(cs.len() as int) =~= src);
    out
}

/// Trims the preferred text, folds the readings into the de-duplicated aliases,
/// and cleans the correction rules.
pub fn normalize_entry(entry: DictionaryEntry) -> (r: DictionaryEntry)
    ensures
        r@ == normalized_entry(entry@),
{
    let preferred = trim_str(entry.preferred.as_str());
    let aliases = unique_values_exec(&entry.readings, &entry.aliases);
    let corrections = normalize_corrections(&entry.corrections);
    let r = DictionaryEntry {
        id: entry.id,
        preferred,
        readings: Vec::new(),
        aliases,
        corrections,
        enabled: entry.enabled,
        source: entry.source,
        created_at: entry.created_at,
        updated_at: entry.updated_at,
    };
    assert(sviews(r.readings@) =~= Seq::<Seq<char>>::empty());
    r
}

/// The entries as read from disk: each normalized, those left without a
/// preferred text dropped, in their order.
pub open spec fn loaded_views(es: Seq<EntryView>) -> Seq<EntryView>
    decreases es.len(),
{
    if es.len() == 0 {
        Seq::empty()
    } else {
        let rest = loaded_views(es.drop_last());
        let e = normalized_entry(es.last());
        if e.preferred.len() == 0 {
            rest
        } else {
            rest.push(e)
        }
    }
}

pub fn normalize_loaded_entries(entries: &Vec<DictionaryEntry>) -> (r: Vec<DictionaryEntry>)
    ensures
        eviews(r@) == loaded_views(eviews(entries@)),
{
    let ghost src = eviews(entries@);
    let mut out: Vec<DictionaryEntry> = Vec::new();
    let mut i: usize = 0;
    while i < entries.len()
        invariant
            0 <= i <= entries.len(),
            src == eviews(entries@),
            eviews(out@) == loaded_views(src.take(i as int)),
        decreases entries.len() - i,
    {
        assert(src.take(i + 1).drop_last() =~= src.take(i as int));
        assert(src.take(i + 1).last() == entries@[i as int]@);
        let e = normalize_entry(clone_entry(&entries[i]));
        proof {
            lemma_trim_idempotent(entries@[i as int]@.preferred);
        }
        if !is_blank_str(e.preferred.as_str()) {
            let ghost before = eviews(out@);
            out.push(e);
            assert(eviews(out@) =~= before.push(e@));
        }
        i = i + 1;
    }
    assert(src.take(entries.len() as int) =~= src);
    out
}

/// Checks the lengths of an entry's texts.
pub fn validate_entry(entry: &DictionaryEntry) -> (r: Result<(), String>)
    ensures
        result_matches(r, entry_error(entry@)),
{
    if is_blank_str(entry.preferred.as_str()) {
        return Err(owned("単語を入力してください。"));
    }
    if crate::text::chars_of(entry.preferred.as_str()).len() > 100 {
        return Err(owned("単語は100文字以内にしてください。"));
    }
    let ghost all = entry@.readings + entry@.aliases;
    let mut i: usize = 0;
    while i < entry.readings.len()
        invariant
            0 <= i <= entry.readings.len(),
            all == entry@.readings + entry@.aliases,
            !is_blank(entry@.preferred),
            entry@.preferred.len() <= 100,
            forall|k: int| 0 <= k < i ==> (#[trigger] all[k]).len() <= 100,
        decreases entry.readings.len() - i,
    {
        if chars_of(entry.readings[i].as_str()).len() > 100 {
            assert(all[i as int].len() > 100);
            return Err(owned("誤認識した表記は100文字以内にしてください。"));
        }
        i = i + 1;
    }
    let mut j: usize = 0;
    while j < entry.aliases.len()
        invariant
            0 <= j <= entry.aliases.len(),
            all == entry@.readings + entry@.aliases,
            !is_blank(entry@.preferred),
            entry@.preferred.len() <= 100,
            forall|k: int| 0 <= k < entry.readings.len() + j ==> (#[trigger] all[k]).len() <= 100,
        decreases entry.aliases.len() - j,
    {
        if chars_of(entry.aliases[j].as_str()).len() > 100 {
            assert(all[entry.readings.len() + j].len() > 100);
            return Err(owned("誤認識した表記は100文字以内にしてください。"));
        }
        j = j + 1;
    }
    let mut k: usize = 0;
    while k < entry.corrections.len()
        invariant
            0 <= k <= entry.corrections.len(),
            all == entry@.readings + entry@.aliases,
            !is_blank(entry@.preferred),
            entry@.preferred.len() <= 100,
            forall|m: int| 0 <= m < all.len() ==> (#[trigger] all[m]).len() <= 100,
            forall|m: int|
                0 <= m < k ==> (#[trigger] entry@.corrections[m]).0.len() <= 100
                    && entry@.corrections[m].1.len() <= 100,
        decreases entry.corrections.len() - k,
    {
        if chars_of(entry.corrections[k].from.as_str()).len() > 100 || chars_of(
            entry.corrections[k].to.as_str(),
        ).len() > 100 {
            assert(entry@.corrections[k as int].0.len() > 100 || entry@.corrections[k as int].1.len()
                > 100);
            return Err(owned("補正ルールは100文字以内にしてください。"));
        }
        k = k + 1;
    }
    Ok(())
}

/// The preferred texts of the enabled entries, trimmed and without repeats.
pub open spec fn enabled_phrase_list(es: Seq<EntryView>) -> Seq<Seq<char>>
    decreases es.len(),
{
    if es.len() == 0 {
        Seq::empty()
    } else if es.last().enabled {
        push_unique(enabled_phrase_list(es.drop_last()), es.last().preferred)
    } else {
        enabled_phrase_list(es.drop_last())
    }
}

/// The preferred texts of the enabled entries, trimmed and without repeats.
pub fn enabled_phrases(entries: &Vec<DictionaryEntry>) -> (r: Vec<String>)
    ensures
        sviews(r@) == enabled_phrase_list(eviews(entries@)),
{
    let ghost es = eviews(entries@);
    let mut out: Vec<String> = Vec::new();
    let mut i: usize = 0;
    assert(sviews(out@) =~= enabled_phrase_list(es.take(0)));
    while i < entries.len()
        invariant
            0 <= i <= entries.len(),
            es == eviews(entries@),
            sviews(out@) == enabled_phrase_list(es.take(i as int)),
        decreases entries.len() - i,
    {
        assert(es.take(i + 1).drop_last() =~= es.take(i as int));
        if entries[i].enabled {
            push_unique_exec(&mut out, entries[i].preferred.as_str());
        }
        i = i + 1;
    }
    assert(es.take(entries.len() as int) =~= es);
    out
}

/// The aliases and readings of an entry that differ from its preferred text.
pub open spec fn variants_from(vs: Seq<Seq<char>>, preferred: Seq<char>) -> Seq<Seq<char>>
    decreases vs.len(),
{
    if vs.len() == 0 {
        Seq::empty()
    } else {
        let rest = variants_from(vs.drop_last(), preferred);
        let v = trim(vs.last());
        if v.len() > 0 && v != preferred {
            push_unique(rest, v)
        } else {
            rest
        }
    }
}

pub open spec fn entry_variants(e: EntryView) -> Seq<Seq<char>> {
    variants_from(e.readings + e.aliases, e.preferred)
}

/// A correction rule as the prompt shows it.
pub open spec fn rule_text(c: (Seq<char>, Seq<char>)) -> Seq<char> {
    c.0 + " -> "@ + c.1
}

pub open spec fn rule_texts(cs: Seq<(Seq<char>, Seq<char>)>) -> Seq<Seq<char>> {
    cs.map_values(|c: (Seq<char>, Seq<char>)| rule_text(c))
}

/// The detail parts of an entry's prompt line.
pub open spec fn entry_details(e: EntryView) -> Seq<Seq<char>> {
    let variants = entry_variants(e);
    (if variants.len() > 0 {
        seq!["誤認識候補: "@ + join(variants, ", "@)]
    } else {
        Seq::empty()
    }) + (if e.corrections.len() > 0 {
        seq!["補正: "@ + join(rule_texts(e.corrections), " / "@)]
    } else {
        Seq::empty()
    })
}

/// The prompt line of one entry.
pub open spec fn entry_line(e: EntryView) -> Seq<char> {
    let details = entry_details(e);
    if details.len() == 0 {
        "- "@ + e.preferred
    } else {
        "- "@ + e.preferred + "（"@ + join(details, " / "@) + "）"@
    }
}

/// The prompt lines of the enabled entries.
pub open spec fn enabled_lines(es: Seq<EntryView>) -> Seq<Seq<char>>
    decreases es.len(),
{
    if es.len() == 0 {
        Seq::empty()
    } else if es.last().enabled {
        enabled_lines(es.drop_last()).push(entry_line(es.last()))
    } else {
        enabled_lines(es.drop_last())
    }
}

/// The dictionary as prompt text: one line per enabled entry.
pub open spec fn prompt_text(es: Seq<EntryView>) -> Seq<char> {
    join(enabled_lines(es), "\n"@)
}

/// Appends `value`, trimmed, to the variants unless it is empty, repeated, or the preferred text.
fn push_variant(out: &mut Vec<String>, value: &str, preferred: &Vec<char>)
    ensures
        sviews(final(out)@) == (if trim(value@).len() > 0 && trim(value@) != preferred@ {
            push_unique(sviews(old(out)@), trim(value@))
        } else {
            sviews(old(out)@)
        }),
{
    let vv = chars_of(value);
    let v = trim_chars(&vv);
    if v.len() > 0 && !chars_eq(&v, preferred) {
        let vs = string_from_chars(&v);
        push_unique_exec(out, vs.as_str());
    }
}

fn variant_values(entry: &DictionaryEntry) -> (r: Vec<Vec<char>>)
    ensures
        vviews(r@) == entry_variants(entry@),
{
    let ghost all = entry@.readings + entry@.aliases;
    let preferred = chars_of(entry.preferred.as_str());
    let mut out: Vec<String> = Vec::new();
    let mut i: usize = 0;
    assert(sviews(out@) =~= variants_from(all.take(0), entry@.preferred));
    while i < entry.readings.len()
        invariant
            0 <= i <= entry.readings.len(),
            all == entry@.readings + entry@.aliases,
            preferred@ == entry@.preferred,
            sviews(out@) == variants_from(all.take(i as int), entry@.preferred),
        decreases entry.readings.len() - i,
    {
        assert(entry.readings@[i as int]@ == all[i as int]);
        push_variant(&mut out, entry.readings[i].as_str(), &preferred);
        assert(all.take(i + 1).drop_last() =~= all.take(i as int));
        i = i + 1;
    }
    let mut j: usize = 0;
    while j < entry.aliases.len()
        invariant
            0 <= j <= entry.aliases.len(),
            all == entry@.readings + entry@.aliases,
            preferred@ == entry@.preferred,
            sviews(out@) == variants_from(all.take(entry.readings.len() + j), entry@.preferred),
        decreases entry.aliases.len() - j,
    {
        assert(entry.aliases@[j as int]@ == all[entry.readings.len() + j]);
        push_variant(&mut out, entry.aliases[j].as_str(), &preferred);
        assert(all.take(entry.readings.len() + j + 1).drop_last() =~= all.take(
            entry.readings.len() + j,
        ));
        j = j + 1;
    }
    assert(all.take(entry.readings.len() + entry.aliases.len()) =~= all);

    let mut r: Vec<Vec<char>> = Vec::new();
    let mut k: usize = 0;
    while k < out.len()
        invariant
            0 <= k <= out.len(),
            vviews(r@) == sviews(out@).subrange(0, k as int),
        decreases out.len() - k,
    {
        let ghost before = vviews(r@);
        r.push(chars_of(out[k].as_str()));
        assert(vviews(r@) =~= before.push(sviews(out@)[k as int]));
        assert(vviews(r@) =~= sviews(out@).subrange(0, k + 1));
        k = k + 1;
    }
    assert(sviews(out@).subrange(0, out.len() as int) =~= sviews(out@));
    r
}

fn entry_line_exec(entry: &DictionaryEntry) -> (r: Vec<char>)
    ensures
        r@ == entry_line(entry@),
{
    let variants = variant_values(entry);
    let mut rules: Vec<Vec<char>> = Vec::new();
    let mut k: usize = 0;
    while k < entry.corrections.len()
        invariant
            0 <= k <= entry.corrections.len(),
            vviews(rules@) == rule_texts(entry@.corrections).subrange(0, k as int),
        decreases entry.corrections.len() - k,
    {
        let mut t = chars_of(entry.corrections[k].from.as_str());
        append_str_chars(&mut t, " -> ");
        append_str_chars(&mut t, entry.corrections[k].to.as_str());
        let ghost before = vviews(rules@);
        rules.push(t);
        assert(vviews(rules@) =~= before.push(rule_text(entry@.corrections[k as int])));
        assert(vviews(rules@) =~= rule_texts(entry@.corrections).subrange(0, k + 1));
        k = k + 1;
    }
    assert(rule_texts(entry@.corrections).subrange(0, entry.corrections.len() as int)
        =~= rule_texts(entry@.corrections));
    let mut details: Vec<Vec<char>> = Vec::new();
    if variants.len() > 0 {
        let mut d = chars_of("誤認識候補: ");
        let sep = chars_of(", ");
        let j = join_chars(&variants, &sep);
        append_chars(&mut d, &j);
        details.push(d);
    }
    let ghost first_part = vviews(details@);
    if entry.corrections.len() > 0 {
        let mut d = chars_of("補正: ");
        let sep = chars_of(" / ");
        let j = join_chars(&rules, &sep);
        append_chars(&mut d, &j);
        details.push(d);
    }
    assert(vviews(details@) =~= entry_details(entry@));
    let mut line = chars_of("- ");
    append_str_chars(&mut line, entry.preferred.as_str());
    if details.len() > 0 {
        append_str_chars(&mut line, "（");
        let sep = chars_of(" / ");
        let j = join_chars(&details, &sep);
        append_chars(&mut line, &j);
        append_str_chars(&mut line, "）");
    }
    line
}

/// The dictionary as prompt text: one line per enabled entry with its
/// misrecognition variants and correction rules.
pub fn prompt_lines(entries: &Vec<DictionaryEntry>) -> (r: String)
    ensures
        r@ == prompt_text(eviews(entries@)),
{
    let ghost es = eviews(entries@);
    let mut lines: Vec<Vec<char>> = Vec::new();
    let mut i: usize = 0;
    assert(vviews(lines@) =~= enabled_lines(es.take(0)));
    while i < entries.len()
        invariant
            0 <= i <= entries.len(),
            es == eviews(entries@),
            vviews(lines@) == enabled_lines(es.take(i as int)),
        decreases entries.len() - i,
    {
        assert(es.take(i + 1).drop_last() =~= es.take(i as int));
        if entries[i].enabled {
            let l = entry_line_exec(&entries[i]);
            let ghost before = vviews(lines@);
            lines.push(l);
            assert(vviews(lines@) =~= before.push(entry_line(es[i as int])));
        }
        i = i + 1;
    }
    assert(es.take(entries.len() as int) =~= es);
    let sep = chars_of("\n");
    let j = join_chars(&lines, &sep);
    string_from_chars(&j)
}


/// `cs` folded into the rules `rules` with `add_correction`.
pub open spec fn add_corrections(
    rules: Seq<(Seq<char>, Seq<char>)>,
    cs: Seq<(Seq<char>, Seq<char>)>,
) -> Seq<(Seq<char>, Seq<char>)>
    decreases cs.len(),
{
    if cs.len() == 0 {
        rules
    } else {
        add_correction(add_corrections(rules, cs.drop_last()), cs.last())
    }
}

/// The correction rules of the enabled entries, in entry order, each source text once.
pub open spec fn collected_rules(es: Seq<EntryView>) -> Seq<(Seq<char>, Seq<char>)>
    decreases es.len(),
{
    if es.len() == 0 {
        Seq::empty()
    } else if es.last().enabled {
        add_corrections(collected_rules(es.drop_last()), es.last().corrections)
    } else {
        collected_rules(es.drop_last())
    }
}

/// `r` inserted after every rule whose source text is at least as long.
pub open spec fn insert_by_length(
    sorted: Seq<(Seq<char>, Seq<char>)>,
    r: (Seq<char>, Seq<char>),
) -> Seq<(Seq<char>, Seq<char>)>
    decreases sorted.len(),
{
    if sorted.len() == 0 {
        seq![r]
    } else if sorted.last().0.len() >= r.0.len() {
        sorted.push(r)
    } else {
        insert_by_length(sorted.drop_last(), r).push(sorted.last())
    }
}

/// A stable sort of the rules, longest source text first.
pub open spec fn sort_by_length(rs: Seq<(Seq<char>, Seq<char>)>) -> Seq<(Seq<char>, Seq<char>)>
    decreases rs.len(),
{
    if rs.len() == 0 {
        Seq::empty()
    } else {
        insert_by_length(sort_by_length(rs.drop_last()), rs.last())
    }
}

/// The rules a transcript is corrected with, in the order they apply.
pub open spec fn replacement_rules(es: Seq<EntryView>) -> Seq<(Seq<char>, Seq<char>)> {
    sort_by_length(collected_rules(es))
}

/// The text after applying the rules one after the other.
pub open spec fn apply_rules(t: Seq<char>, rules: Seq<(Seq<char>, Seq<char>)>) -> Seq<char>
    decreases rules.len(),
{
    if rules.len() == 0 {
        t
    } else {
        replace_all(apply_rules(t, rules.drop_last()), rules.last().0, rules.last().1)
    }
}

/// Every rule has a non-empty source text.
pub open spec fn rules_well_formed(rs: Seq<(Seq<char>, Seq<char>)>) -> bool {
    forall|i: int| 0 <= i < rs.len() ==> (#[trigger] rs[i]).0.len() > 0
}

fn rule_push(rules: &mut Vec<DictionaryCorrection>, c: &DictionaryCorrection)
    requires
        rules_well_formed(cviews(old(rules)@)),
    ensures
        cviews(final(rules)@) == add_correction(cviews(old(rules)@), c@),
        rules_well_formed(cviews(final(rules)@)),
{
    let fv = chars_of(c.from.as_str());
    let tv = chars_of(c.to.as_str());
    let f = trim_chars(&fv);
    let t = trim_chars(&tv);
    if !(f.len() == 0 || t.len() == 0 || chars_eq(&f, &t) || corrections_have_from(rules, &f)) {
        let ghost before = cviews(rules@);
        rules.push(DictionaryCorrection { from: string_from_chars(&f), to: string_from_chars(&t) });
        assert(cviews(rules@) =~= before.push((f@, t@)));
    }
}

fn collect_rules(entries: &Vec<DictionaryEntry>) -> (r: Vec<DictionaryCorrection>)
    ensures
        cviews(r@) == collected_rules(eviews(entries@)),
        rules_well_formed(cviews(r@)),
{
    let ghost es = eviews(entries@);
    let mut rules: Vec<DictionaryCorrection> = Vec::new();
    let mut i: usize = 0;
    assert(cviews(rules@) =~= collected_rules(es.take(0)));
    while i < entries.len()
        invariant
            0 <= i <= entries.len(),
            es == eviews(entries@),
            cviews(rules@) == collected_rules(es.take(i as int)),
            rules_well_formed(cviews(rules@)),
        decreases entries.len() - i,
    {
        assert(es.take(i + 1).drop_last() =~= es.take(i as int));
        if entries[i].enabled {
            let ghost start = cviews(rules@);
            let cs = &entries[i].corrections;
            let mut k: usize = 0;
            assert(add_corrections(start, cviews(cs@).take(0)) == start);
            while k < cs.len()
                invariant
                    0 <= k <= cs.len(),
                    cviews(rules@) == add_corrections(start, cviews(cs@).take(k as int)),
                    rules_well_formed(cviews(rules@)),
                decreases cs.len() - k,
            {
                rule_push(&mut rules, &cs[k]);
                assert(cviews(cs@).take(k + 1).drop_last() =~= cviews(cs@).take(k as int));
                k = k + 1;
            }
            assert(cviews(cs@).take(cs.len() as int) =~= cviews(cs@));
        }
        i = i + 1;
    }
    assert(es.take(entries.len() as int) =~= es);
    rules
}

/// Where `insert_by_length` puts `r`: after the last rule at least as long.
pub open spec fn length_position(s: Seq<(Seq<char>, Seq<char>)>, r: (Seq<char>, Seq<char>), j: int) -> int
    decreases j,
{
    if j > 0 && j <= s.len() && s[j - 1].0.len() < r.0.len() {
        length_position(s, r, j - 1)
    } else {
        j
    }
}

pub proof fn lemma_length_position_prefix(s: Seq<(Seq<char>, Seq<char>)>, r: (Seq<char>, Seq<char>), j: int)
    requires
        0 <= j < s.len(),
    ensures
        length_position(s, r, j) == length_position(s.drop_last(), r, j),
    decreases j,
{
    if j > 0 && s[j - 1].0.len() < r.0.len() {
        lemma_length_position_prefix(s, r, j - 1);
    }
}

pub proof fn lemma_insert_by_length(s: Seq<(Seq<char>, Seq<char>)>, r: (Seq<char>, Seq<char>))
    ensures
        0 <= length_position(s, r, s.len() as int) <= s.len(),
        insert_by_length(s, r) == s.subrange(0, length_position(s, r, s.len() as int)).push(r)
            + s.subrange(length_position(s, r, s.len() as int), s.len() as int),
    decreases s.len(),
{
    let n = s.len() as int;
    if n == 0 {
        assert(insert_by_length(s, r) =~= s.subrange(0, 0).push(r) + s.subrange(0, 0));
    } else if s.last().0.len() >= r.0.len() {
        assert(insert_by_length(s, r) =~= s.subrange(0, n).push(r) + s.subrange(n, n));
    } else {
        let t = s.drop_last();
        lemma_insert_by_length(t, r);
        let j = length_position(t, r, t.len() as int);
        assert(length_position(s, r, n) == length_position(s, r, n - 1));
        lemma_length_position_prefix(s, r, n - 1);
        assert(insert_by_length(s, r) =~= s.subrange(0, j).push(r) + s.subrange(j, n));
    }
}

/// Sorting keeps exactly the rules it was given.
pub proof fn lemma_sort_by_length_well_formed(rs: Seq<(Seq<char>, Seq<char>)>)
    requires
        rules_well_formed(rs),
    ensures
        rules_well_formed(sort_by_length(rs)),
    decreases rs.len(),
{
    if rs.len() > 0 {
        let prev = sort_by_length(rs.drop_last());
        lemma_sort_by_length_well_formed(rs.drop_last());
        lemma_insert_by_length(prev, rs.last());
        let j = length_position(prev, rs.last(), prev.len() as int);
        let out = sort_by_length(rs);
        assert(rs.last().0.len() > 0);
        assert forall|i: int| 0 <= i < out.len() implies (#[trigger] out[i]).0.len() > 0 by {
            if i < j {
                assert(out[i] == prev[i]);
            } else if i == j {
                assert(out[i] == rs.last());
            } else {
                assert(out[i] == prev[i - 1]);
            }
        }
    }
}

fn sort_rules(rules: &Vec<DictionaryCorrection>) -> (r: Vec<DictionaryCorrection>)
    ensures
        cviews(r@) == sort_by_length(cviews(rules@)),
{
    let ghost src = cviews(rules@);
    let mut sorted: Vec<DictionaryCorrection> = Vec::new();
    let mut i: usize = 0;
    assert(cviews(sorted@) =~= sort_by_length(src.take(0)));
    while i < rules.len()
        invariant
            0 <= i <= rules.len(),
            src == cviews(rules@),
            cviews(sorted@) == sort_by_length(src.take(i as int)),
        decreases rules.len() - i,
    {
        let c = DictionaryCorrection { from: rules[i].from.clone(), to: rules[i].to.clone() };
        let clen = chars_of(c.from.as_str()).len();
        let ghost s = cviews(sorted@);
        let mut j = sorted.len();
        while j > 0 && chars_of(sorted[j - 1].from.as_str()).len() < clen
            invariant
                0 <= j <= sorted.len(),
                s == cviews(sorted@),
                clen == c@.0.len(),
                length_position(s, c@, j as int) == length_position(s, c@, s.len() as int),
            decreases j,
        {
            j = j - 1;
        }
        proof {
            lemma_insert_by_length(s, c@);
        }
        let ghost cv = c@;
        sorted.insert(j, c);
        assert(cviews(sorted@) =~= s.subrange(0, j as int).push(cv) + s.subrange(j as int, s.len() as int));
        assert(src.take(i + 1).drop_last() =~= src.take(i as int));
        i = i + 1;
    }
    assert(src.take(rules.len() as int) =~= src);
    sorted
}

/// Applies the correction rules of the enabled entries to a transcript, the
/// rules with longer source texts first. Aliases alone change nothing: the
/// result is the one the enabled entries alone give, and a transcript comes
/// back unchanged when no enabled entry holds a usable rule.
pub fn apply_transcript_corrections(transcript: &str, entries: &Vec<DictionaryEntry>) -> (r: String)
    ensures
        r@ == apply_rules(transcript@, replacement_rules(eviews(entries@))),
        r@ == apply_rules(
            transcript@,
            replacement_rules(eviews(entries@).filter(|e: EntryView| e.enabled)),
        ),
        (forall|i: int, j: int|
            0 <= i < entries@.len() && eviews(entries@)[i].enabled && 0 <= j < eviews(
                entries@,
            )[i].corrections.len() ==> !usable_rule(#[trigger] eviews(entries@)[i].corrections[j]))
            ==> r@ == transcript@,
{
    proof {
        lemma_corrections_ignore_disabled(transcript@, eviews(entries@));
        let es = eviews(entries@);
        if forall|i: int, j: int|
            0 <= i < entries@.len() && es[i].enabled && 0 <= j < es[i].corrections.len()
                ==> !usable_rule(#[trigger] es[i].corrections[j]) {
            lemma_corrections_without_rules(transcript@, es);
        }
    }
    let collected = collect_rules(entries);
    let rules = sort_rules(&collected);
    proof {
        lemma_sort_by_length_well_formed(cviews(collected@));
    }
    let ghost rs = cviews(rules@);
    let mut out = chars_of(transcript);
    let mut i: usize = 0;
    assert(rs.take(0) =~= Seq::<(Seq<char>, Seq<char>)>::empty());
    while i < rules.len()
        invariant
            0 <= i <= rules.len(),
            rs == cviews(rules@),
            rules_well_formed(rs),
            out@ == apply_rules(transcript@, rs.take(i as int)),
        decreases rules.len() - i,
    {
        let from = chars_of(rules[i].from.as_str());
        let to = chars_of(rules[i].to.as_str());
        assert(rs[i as int].0.len() > 0);
        out = replace_chars(&out, &from, &to);
        assert(rs.take(i + 1).drop_last() =~= rs.take(i as int));
        i = i + 1;
    }
    assert(rs.take(rules.len() as int) =~= rs);
    string_from_chars(&out)
}

/// Learning only happens for short, non-empty, changed texts.
pub open spec fn learning_applies(from: Seq<char>, to: Seq<char>) -> bool {
    let f = trim(from);
    let t = trim(to);
    f.len() > 0 && t.len() > 0 && f != t && f.len() <= 100 && t.len() <= 100
}

/// Some entry already rules or lists `from` as a misrecognition.
pub open spec fn blocks_learning(es: Seq<EntryView>, from: Seq<char>) -> bool {
    exists|i: int|
        0 <= i < es.len() && (has_from((#[trigger] es[i]).corrections, from) || es[i].aliases.contains(
            from,
        ))
}

/// The index of the first entry at or after `i` whose preferred text is `to`.
pub open spec fn first_preferred_index(es: Seq<EntryView>, to: Seq<char>, i: int) -> Option<int>
    decreases es.len() - i,
{
    if i < 0 || i >= es.len() {
        None
    } else if es[i].preferred == to {
        Some(i)
    } else {
        first_preferred_index(es, to, i + 1)
    }
}

/// The id of the entry learned at time `now`.
pub open spec fn learned_entry_id(now: u64) -> Seq<char> {
    "learned-"@ + decimal(now as nat)
}

/// The entry created for a correction whose target is not in the dictionary.
pub open spec fn new_learned_entry(f: Seq<char>, t: Seq<char>, now: u64) -> EntryView {
    normalized_entry(
        EntryView {
            id: learned_entry_id(now),
            preferred: t,
            readings: Seq::empty(),
            aliases: Seq::empty(),
            corrections: seq![(f, t)],
            enabled: true,
            source: DictionarySource::Learned,
            created_at: now,
            updated_at: now,
        },
    )
}

/// An existing entry with the correction appended.
pub open spec fn extended_entry(e: EntryView, f: Seq<char>, t: Seq<char>, now: u64) -> EntryView {
    normalized_entry(EntryView { corrections: e.corrections.push((f, t)), updated_at: now, ..e })
}

/// The entries after learning the correction `from -> to` at time `now`.
pub open spec fn upsert_entries(es: Seq<EntryView>, from: Seq<char>, to: Seq<char>, now: u64) -> Seq<
    EntryView,
> {
    let f = trim(from);
    let t = trim(to);
    if !learning_applies(from, to) || blocks_learning(es, f) {
        es
    } else {
        match first_preferred_index(es, t, 0) {
            Some(k) => es.update(k, extended_entry(es[k], f, t, now)),
            None => if entry_error(new_learned_entry(f, t, now)) is None {
                es.push(new_learned_entry(f, t, now))
            } else {
                es
            },
        }
    }
}

/// What learning the correction reports: nothing learned, the learned rule
/// (entry id, source, target), or a validation error.
pub open spec fn upsert_result(es: Seq<EntryView>, from: Seq<char>, to: Seq<char>, now: u64) -> Result<
    Option<(Seq<char>, Seq<char>, Seq<char>)>,
    Seq<char>,
> {
    let f = trim(from);
    let t = trim(to);
    if !learning_applies(from, to) || blocks_learning(es, f) {
        Ok(None)
    } else {
        match first_preferred_index(es, t, 0) {
            Some(k) => match entry_error(extended_entry(es[k], f, t, now)) {
                Some(e) => Err(e),
                None => Ok(Some((es[k].id, f, t))),
            },
            None => match entry_error(new_learned_entry(f, t, now)) {
                Some(e) => Err(e),
                None => Ok(Some((learned_entry_id(now), f, t))),
            },
        }
    }
}

pub open spec fn learned_matches(
    r: Result<Option<LearnedCorrection>, String>,
    s: Result<Option<(Seq<char>, Seq<char>, Seq<char>)>, Seq<char>>,
) -> bool {
    match r {
        Ok(None) => s == Ok::<Option<(Seq<char>, Seq<char>, Seq<char>)>, Seq<char>>(None),
        Ok(Some(l)) => s == Ok::<Option<(Seq<char>, Seq<char>, Seq<char>)>, Seq<char>>(
            Some((l.entry_id@, l.from@, l.to@)),
        ),
        Err(e) => s == Err::<Option<(Seq<char>, Seq<char>, Seq<char>)>, Seq<char>>(e@),
    }
}

fn blocks_learning_exec(entries: &Vec<DictionaryEntry>, f: &Vec<char>) -> (r: bool)
    ensures
        r == blocks_learning(eviews(entries@), f@),
{
    let ghost es = eviews(entries@);
    let mut i: usize = 0;
    while i < entries.len()
        invariant
            0 <= i <= entries.len(),
            es == eviews(entries@),
            forall|k: int|
                0 <= k < i ==> !(has_from((#[trigger] es[k]).corrections, f@) || es[k].aliases.contains(
                    f@,
                )),
        decreases entries.len() - i,
    {
        if corrections_have_from(&entries[i].corrections, f) || strings_contain(&entries[i].aliases, f) {
            assert(has_from(es[i as int].corrections, f@) || es[i as int].aliases.contains(f@));
            return true;
        }
        i = i + 1;
    }
    false
}

fn learned_id_exec(now: u64) -> (r: String)
    ensures
        r@ == learned_entry_id(now),
{
    let mut v = chars_of("learned-");
    push_decimal(&mut v, now);
    string_from_chars(&v)
}

/// Records the correction `from -> to` that the user made after a paste: on
/// the entry whose preferred text is `to` if there is one, else on a new
/// learned entry. Nothing is learned for empty, identical or over-long texts,
/// or when some entry already rules or lists `from`.
pub fn upsert_learned_correction_in_entries(
    entries: &mut Vec<DictionaryEntry>,
    from: &str,
    to: &str,
    now: u64,
) -> (r: Result<Option<LearnedCorrection>, String>)
    ensures
        eviews(final(entries)@) == upsert_entries(eviews(old(entries)@), from@, to@, now),
        learned_matches(r, upsert_result(eviews(old(entries)@), from@, to@, now)),
{
    let ghost es = eviews(entries@);
    let fv = chars_of(from);
    let tv = chars_of(to);
    let f = trim_chars(&fv);
    let t = trim_chars(&tv);
    if f.len() == 0 || t.len() == 0 || chars_eq(&f, &t) {
        return Ok(None);
    }
    if f.len() > 100 || t.len() > 100 {
        return Ok(None);
    }
    if blocks_learning_exec(entries, &f) {
        return Ok(None);
    }
    let mut i: usize = 0;
    while i < entries.len()
        invariant
            0 <= i <= entries.len(),
            es == eviews(entries@),
            es == eviews(old(entries)@),
            f@ == trim(from@),
            t@ == trim(to@),
            learning_applies(from@, to@),
            !blocks_learning(es, f@),
            first_preferred_index(es, t@, i as int) == first_preferred_index(es, t@, 0),
        decreases entries.len() - i,
    {
        let p = chars_of(entries[i].preferred.as_str());
        if chars_eq(&p, &t) {
            let mut e = clone_entry(&entries[i]);
            let ghost ev = e@;
            let ghost cs0 = cviews(e.corrections@);
            e.corrections.push(DictionaryCorrection { from: string_from_chars(&f), to: string_from_chars(&t) });
            assert(cviews(e.corrections@) =~= cs0.push((f@, t@)));
            e.updated_at = now;
            assert(e@ =~= EntryView { corrections: ev.corrections.push((f@, t@)), updated_at: now, ..ev });
            let e2 = normalize_entry(e);
            let checked = validate_entry(&e2);
            let entry_id = e2.id.clone();
            entries.set(i, e2);
            assert(eviews(entries@) =~= es.update(i as int, extended_entry(es[i as int], f@, t@, now)));
            return match checked {
                Err(m) => Err(m),
                Ok(()) => Ok(
                    Some(
                        LearnedCorrection {
                            entry_id,
                            from: string_from_chars(&f),
                            to: string_from_chars(&t),
                        },
                    ),
                ),
            };
        }
        i = i + 1;
    }
    let entry_id = learned_id_exec(now);
    let correction = DictionaryCorrection { from: string_from_chars(&f), to: string_from_chars(&t) };
    let entry = DictionaryEntry {
        id: entry_id.clone(),
        preferred: string_from_chars(&t),
        readings: Vec::new(),
        aliases: Vec::new(),
        corrections: vec![correction],
        enabled: true,
        source: DictionarySource::Learned,
        created_at: now,
        updated_at: now,
    };
    assert(cviews(entry.corrections@) =~= seq![(f@, t@)]);
    assert(sviews(entry.readings@) =~= Seq::<Seq<char>>::empty());
    assert(sviews(entry.aliases@) =~= Seq::<Seq<char>>::empty());
    assert(entry@ =~= EntryView {
        id: learned_entry_id(now),
        preferred: t@,
        readings: Seq::empty(),
        aliases: Seq::empty(),
        corrections: seq![(f@, t@)],
        enabled: true,
        source: DictionarySource::Learned,
        created_at: now,
        updated_at: now,
    });
    let entry = normalize_entry(entry);
    match validate_entry(&entry) {
        Err(m) => {
            return Err(m);
        },
        Ok(()) => {},
    }
    let ghost nv = entry@;
    entries.push(entry);
    assert(eviews(entries@) =~= es.push(nv));
    Ok(Some(LearnedCorrection { entry_id, from: string_from_chars(&f), to: string_from_chars(&t) }))
}

/// The rules without those that are exactly `from -> to`.
pub open spec fn without_rule(cs: Seq<(Seq<char>, Seq<char>)>, from: Seq<char>, to: Seq<char>) -> Seq<
    (Seq<char>, Seq<char>),
>
    decreases cs.len(),
{
    if cs.len() == 0 {
        Seq::empty()
    } else if cs.last().0 == from && cs.last().1 == to {
        without_rule(cs.drop_last(), from, to)
    } else {
        without_rule(cs.drop_last(), from, to).push(cs.last())
    }
}

/// The index of the first entry at or after `i` with the id `id`.
pub open spec fn first_entry_index(es: Seq<EntryView>, id: Seq<char>, i: int) -> Option<int>
    decreases es.len() - i,
{
    if i < 0 || i >= es.len() {
        None
    } else if es[i].id == id {
        Some(i)
    } else {
        first_entry_index(es, id, i + 1)
    }
}

/// The entries after undoing the learned rule `from -> to` on the entry `id` at time `now`.
pub open spec fn undo_entries(
    es: Seq<EntryView>,
    id: Seq<char>,
    from: Seq<char>,
    to: Seq<char>,
    now: u64,
) -> Seq<EntryView> {
    match first_entry_index(es, id, 0) {
        None => es,
        Some(k) => {
            let e = es[k];
            let kept = without_rule(e.corrections, from, to);
            if kept.len() == e.corrections.len() {
                es
            } else if e.source == DictionarySource::Learned && kept.len() == 0 && e.aliases.len()
                == 0 {
                es.remove(k)
            } else {
                es.update(k, EntryView { corrections: kept, updated_at: now, ..e })
            }
        },
    }
}

/// Whether undoing removed a rule.
pub open spec fn undo_result(es: Seq<EntryView>, id: Seq<char>, from: Seq<char>, to: Seq<char>) -> bool {
    match first_entry_index(es, id, 0) {
        None => false,
        Some(k) => without_rule(es[k].corrections, from, to).len() != es[k].corrections.len(),
    }
}

/// Removes the learned rule `from -> to` from the entry `entry_id`; an emptied
/// learned entry goes away entirely. Says whether a rule was removed.
pub fn undo_learned_correction_in_entries(
    entries: &mut Vec<DictionaryEntry>,
    entry_id: &str,
    from: &str,
    to: &str,
    now: u64,
) -> (r: bool)
    ensures
        eviews(final(entries)@) == undo_entries(eviews(old(entries)@), entry_id@, from@, to@, now),
        r == undo_result(eviews(old(entries)@), entry_id@, from@, to@),
{
    let ghost es = eviews(entries@);
    let mut i: usize = 0;
    while i < entries.len() && !crate::text::str_eq(entries[i].id.as_str(), entry_id)
        invariant
            0 <= i <= entries.len(),
            es == eviews(entries@),
            first_entry_index(es, entry_id@, i as int) == first_entry_index(es, entry_id@, 0),
        decreases entries.len() - i,
    {
        i = i + 1;
    }
    if i == entries.len() {
        return false;
    }
    let cs = &entries[i].corrections;
    let mut kept: Vec<DictionaryCorrection> = Vec::new();
    let mut k: usize = 0;
    let fv = chars_of(from);
    let tv = chars_of(to);
    assert(cviews(kept@) =~= without_rule(cviews(cs@).take(0), from@, to@));
    while k < cs.len()
        invariant
            0 <= k <= cs.len(),
            fv@ == from@,
            tv@ == to@,
            cviews(kept@) == without_rule(cviews(cs@).take(k as int), from@, to@),
        decreases cs.len() - k,
    {
        let cf = chars_of(cs[k].from.as_str());
        let ct = chars_of(cs[k].to.as_str());
        assert(cviews(cs@).take(k + 1).drop_last() =~= cviews(cs@).take(k as int));
        if !(chars_eq(&cf, &fv) && chars_eq(&ct, &tv)) {
            let ghost before = cviews(kept@);
            kept.push(DictionaryCorrection { from: cs[k].from.clone(), to: cs[k].to.clone() });
            assert(cviews(kept@) =~= before.push(cviews(cs@)[k as int]));
        }
        k = k + 1;
    }
    assert(cviews(cs@).take(cs.len() as int) =~= cviews(cs@));
    if kept.len() == cs.len() {
        return false;
    }
    if entries[i].source == DictionarySource::Learned && kept.len() == 0 && entries[i].aliases.len()
        == 0 {
        entries.remove(i);
        assert(eviews(entries@) =~= es.remove(i as int));
    } else {
        let mut e = clone_entry(&entries[i]);
        let ghost ev = e@;
        e.corrections = kept;
        e.updated_at = now;
        let ghost nv = e@;
        entries.set(i, e);
        assert(eviews(entries@) =~= es.update(i as int, nv));
    }
    true
}


/// The texts of an optional list, or none.
pub open spec fn opt_sviews(o: Option<Vec<String>>) -> Seq<Seq<char>> {
    match o {
        Some(v) => sviews(v@),
        None => Seq::empty(),
    }
}

/// The rules of an optional list, or none.
pub open spec fn opt_cviews(o: Option<Vec<DictionaryCorrection>>) -> Seq<(Seq<char>, Seq<char>)> {
    match o {
        Some(v) => cviews(v@),
        None => Seq::empty(),
    }
}

/// A manual entry made from form input under `id` at time `now`.
pub open spec fn entry_from_input(input: DictionaryEntryInput, id: Seq<char>, preferred: Seq<char>, now: u64) -> EntryView {
    normalized_entry(
        EntryView {
            id,
            preferred,
            readings: Seq::empty(),
            aliases: opt_sviews(input.aliases),
            corrections: opt_cviews(input.corrections),
            enabled: input.enabled,
            source: DictionarySource::Manual,
            created_at: now,
            updated_at: now,
        },
    )
}

/// The id of an entry created at time `now`.
pub open spec fn manual_entry_id(now: u64) -> Seq<char> {
    "dict-"@ + decimal(now as nat)
}

/// The id of the `idx`-th entry of a batch created at time `now`.
pub open spec fn batch_entry_id(now: u64, idx: int) -> Seq<char> {
    "dict-"@ + decimal(now as nat) + "-"@ + decimal(idx as nat)
}

fn take_strings(o: Option<Vec<String>>) -> (r: Vec<String>)
    ensures
        sviews(r@) == opt_sviews(o),
{
    match o {
        Some(v) => v,
        None => {
            let v: Vec<String> = Vec::new();
            assert(sviews(v@) =~= Seq::<Seq<char>>::empty());
            v
        },
    }
}

fn take_corrections(o: Option<Vec<DictionaryCorrection>>) -> (r: Vec<DictionaryCorrection>)
    ensures
        cviews(r@) == opt_cviews(o),
{
    match o {
        Some(v) => v,
        None => {
            let v: Vec<DictionaryCorrection> = Vec::new();
            assert(cviews(v@) =~= Seq::<(Seq<char>, Seq<char>)>::empty());
            v
        },
    }
}

fn entry_from_input_exec(input: DictionaryEntryInput, id: String, preferred: String, now: u64) -> (r:
    DictionaryEntry)
    ensures
        r@ == entry_from_input(input, id@, preferred@, now),
{
    let ghost iv = input;
    let e = DictionaryEntry {
        id,
        preferred,
        readings: Vec::new(),
        aliases: take_strings(input.aliases),
        corrections: take_corrections(input.corrections),
        enabled: input.enabled,
        source: DictionarySource::Manual,
        created_at: now,
        updated_at: now,
    };
    assert(sviews(e.readings@) =~= Seq::<Seq<char>>::empty());
    normalize_entry(e)
}

/// Adds a manual entry made from `input` at time `now`; refused when the entry
/// is invalid, in which case the entries stay as they were.
pub fn create_entry_in_entries(
    entries: &mut Vec<DictionaryEntry>,
    input: DictionaryEntryInput,
    now: u64,
) -> (r: Result<DictionaryEntry, String>)
    ensures
        ({
            let e = entry_from_input(input, manual_entry_id(now), input.preferred@, now);
            match entry_error(e) {
                Some(m) => r matches Err(x) && x@ == m && final(entries)@ == old(entries)@,
                None => r matches Ok(x) && x@ == e && eviews(final(entries)@) == eviews(
                    old(entries)@,
                ).push(e),
            }
        }),
{
    let mut idv = chars_of("dict-");
    push_decimal(&mut idv, now);
    let id = string_from_chars(&idv);
    let preferred = input.preferred.clone();
    let entry = entry_from_input_exec(input, id, preferred, now);
    match validate_entry(&entry) {
        Err(m) => {
            return Err(m);
        },
        Ok(()) => {},
    }
    let copy = clone_entry(&entry);
    let ghost before = eviews(entries@);
    entries.push(entry);
    assert(eviews(entries@) =~= before.push(copy@));
    Ok(copy)
}

/// One step of a batch: the entries, the added entries, the skip count and the
/// preferred texts taken so far, after the input at index `idx`.
pub open spec fn batch_step(
    state: (Seq<EntryView>, Seq<EntryView>, nat, Seq<Seq<char>>),
    input: DictionaryEntryInput,
    idx: int,
    now: u64,
) -> (Seq<EntryView>, Seq<EntryView>, nat, Seq<Seq<char>>) {
    let (es, added, skipped, seen) = state;
    let preferred = trim(input.preferred@);
    if preferred.len() == 0 || seen.contains(preferred) {
        (es, added, skipped + 1, seen)
    } else {
        let e = entry_from_input(input, batch_entry_id(now, idx), preferred, now);
        if entry_error(e) is Some {
            (es, added, skipped + 1, seen)
        } else {
            (es.push(e), added.push(e), skipped, seen.push(e.preferred))
        }
    }
}

/// The batch state after the first `n` inputs.
pub open spec fn batch_state(
    es: Seq<EntryView>,
    inputs: Seq<DictionaryEntryInput>,
    n: int,
    now: u64,
) -> (Seq<EntryView>, Seq<EntryView>, nat, Seq<Seq<char>>)
    decreases n,
{
    if n <= 0 {
        (es, Seq::empty(), 0, es.map_values(|e: EntryView| e.preferred))
    } else {
        batch_step(batch_state(es, inputs, n - 1, now), inputs[n - 1], n - 1, now)
    }
}

fn seen_contains(seen: &Vec<Vec<char>>, x: &Vec<char>) -> (r: bool)
    ensures
        r == vviews(seen@).contains(x@),
{
    let mut i: usize = 0;
    while i < seen.len()
        invariant
            0 <= i <= seen.len(),
            forall|k: int| 0 <= k < i ==> vviews(seen@)[k] != x@,
        decreases seen.len() - i,
    {
        if chars_eq(&seen[i], x) {
            assert(vviews(seen@)[i as int] == x@);
            return true;
        }
        i = i + 1;
    }
    false
}

/// Form input with the same texts and flags.
pub open spec fn same_input(a: DictionaryEntryInput, b: DictionaryEntryInput) -> bool {
    &&& a.preferred@ == b.preferred@
    &&& opt_sviews(a.aliases) == opt_sviews(b.aliases)
    &&& opt_cviews(a.corrections) == opt_cviews(b.corrections)
    &&& a.enabled == b.enabled
}

fn clone_input(i: &DictionaryEntryInput) -> (r: DictionaryEntryInput)
    ensures
        same_input(r, *i),
        entry_from_input(r, Seq::empty(), Seq::empty(), 0) == entry_from_input(*i, Seq::empty(), Seq::empty(), 0),
{
    DictionaryEntryInput {
        preferred: i.preferred.clone(),
        aliases: match &i.aliases {
            Some(v) => Some(clone_strings(v)),
            None => None,
        },
        corrections: match &i.corrections {
            Some(v) => Some(clone_corrections(v)),
            None => None,
        },
        enabled: i.enabled,
    }
}

/// Adds several words at once. Empty words, words whose preferred text is
/// already present (or earlier in the batch) and invalid entries are skipped
/// and counted; the others are appended and returned.
pub fn create_entries_in_entries(
    entries: &mut Vec<DictionaryEntry>,
    inputs: Vec<DictionaryEntryInput>,
    now: u64,
) -> (r: BulkCreateResult)
    ensures
        ({
            let st = batch_state(eviews(old(entries)@), inputs@, inputs@.len() as int, now);
            &&& eviews(final(entries)@) == st.0
            &&& eviews(r.added@) == st.1
            &&& r.skipped == st.2
        }),
{
    let ghost es0 = eviews(entries@);
    let ghost ins = inputs@;
    let mut seen: Vec<Vec<char>> = Vec::new();
    let mut k: usize = 0;
    while k < entries.len()
        invariant
            0 <= k <= entries.len(),
            es0 == eviews(entries@),
            vviews(seen@) == es0.map_values(|e: EntryView| e.preferred).subrange(0, k as int),
        decreases entries.len() - k,
    {
        let ghost before = vviews(seen@);
        seen.push(chars_of(entries[k].preferred.as_str()));
        assert(vviews(seen@) =~= before.push(es0[k as int].preferred));
        assert(vviews(seen@) =~= es0.map_values(|e: EntryView| e.preferred).subrange(0, k + 1));
        k = k + 1;
    }
    assert(es0.map_values(|e: EntryView| e.preferred).subrange(0, entries.len() as int)
        =~= es0.map_values(|e: EntryView| e.preferred));
    let mut added: Vec<DictionaryEntry> = Vec::new();
    let mut skipped: usize = 0;
    let mut i: usize = 0;
    assert(eviews(added@) =~= Seq::<EntryView>::empty());
    while i < inputs.len()
        invariant
            0 <= i <= inputs.len(),
            ins == inputs@,
            skipped <= i,
            ({
                let st = batch_state(es0, ins, i as int, now);
                &&& eviews(entries@) == st.0
                &&& eviews(added@) == st.1
                &&& skipped == st.2
                &&& vviews(seen@) == st.3
            }),
        decreases inputs.len() - i,
    {
        let input = clone_input(&inputs[i]);
        let pv = chars_of(input.preferred.as_str());
        let preferred = trim_chars(&pv);
        if preferred.len() == 0 || seen_contains(&seen, &preferred) {
            skipped = skipped + 1;
        } else {
            let mut idv = chars_of("dict-");
            push_decimal(&mut idv, now);
            append_str_chars(&mut idv, "-");
            push_decimal(&mut idv, i as u64);
            assert(idv@ =~= batch_entry_id(now, i as int));
            let id = string_from_chars(&idv);
            let entry = entry_from_input_exec(input, id, string_from_chars(&preferred), now);
            match validate_entry(&entry) {
                Err(_) => {
                    skipped = skipped + 1;
                },
                Ok(()) => {
                    let ghost ev = entry@;
                    let ghost before_entries = eviews(entries@);
                    let ghost before_added = eviews(added@);
                    let ghost before_seen = vviews(seen@);
                    seen.push(chars_of(entry.preferred.as_str()));
                    entries.push(clone_entry(&entry));
                    added.push(entry);
                    assert(eviews(entries@) =~= before_entries.push(ev));
                    assert(eviews(added@) =~= before_added.push(ev));
                    assert(vviews(seen@) =~= before_seen.push(ev.preferred));
                },
            }
        }
        i = i + 1;
    }
    BulkCreateResult { added, skipped }
}


pub open spec fn err_entry_not_found() -> Seq<char> {
    "辞書項目が見つかりません。"@
}

/// The entry `e` rewritten from form input at time `now`: it keeps its id,
/// readings and creation time, and omitted aliases or rules stay as they were.
pub open spec fn updated_entry(e: EntryView, input: DictionaryEntryInput, now: u64) -> EntryView {
    normalized_entry(
        EntryView {
            id: e.id,
            preferred: input.preferred@,
            readings: e.readings,
            aliases: match input.aliases {
                Some(v) => sviews(v@),
                None => e.aliases,
            },
            corrections: match input.corrections {
                Some(v) => cviews(v@),
                None => e.corrections,
            },
            enabled: input.enabled,
            source: DictionarySource::Manual,
            created_at: e.created_at,
            updated_at: now,
        },
    )
}

/// Rewrites the first entry with the id `id` from form input at time `now`.
pub fn update_entry_in_entries(
    entries: &mut Vec<DictionaryEntry>,
    id: &str,
    input: DictionaryEntryInput,
    now: u64,
) -> (r: Result<DictionaryEntry, String>)
    ensures
        match first_entry_index(eviews(old(entries)@), id@, 0) {
            None => r matches Err(x) && x@ == err_entry_not_found() && final(entries)@ == old(entries)@,
            Some(k) => {
                let e = updated_entry(eviews(old(entries)@)[k], input, now);
                match entry_error(e) {
                    Some(m) => r matches Err(x) && x@ == m && final(entries)@ == old(entries)@,
                    None => r matches Ok(x) && x@ == e && eviews(final(entries)@) == eviews(
                        old(entries)@,
                    ).update(k, e),
                }
            },
        },
{
    let ghost es = eviews(entries@);
    let mut i: usize = 0;
    while i < entries.len() && !crate::text::str_eq(entries[i].id.as_str(), id)
        invariant
            0 <= i <= entries.len(),
            es == eviews(entries@),
            first_entry_index(es, id@, i as int) == first_entry_index(es, id@, 0),
        decreases entries.len() - i,
    {
        i = i + 1;
    }
    if i == entries.len() {
        return Err(owned("辞書項目が見つかりません。"));
    }
    let old_entry = &entries[i];
    let aliases = match input.aliases {
        Some(v) => v,
        None => clone_strings(&old_entry.aliases),
    };
    let corrections = match input.corrections {
        Some(v) => v,
        None => clone_corrections(&old_entry.corrections),
    };
    let e = DictionaryEntry {
        id: old_entry.id.clone(),
        preferred: input.preferred,
        readings: clone_strings(&old_entry.readings),
        aliases,
        corrections,
        enabled: input.enabled,
        source: DictionarySource::Manual,
        created_at: old_entry.created_at,
        updated_at: now,
    };
    let entry = normalize_entry(e);
    match validate_entry(&entry) {
        Err(m) => {
            return Err(m);
        },
        Ok(()) => {},
    }
    let copy = clone_entry(&entry);
    entries.set(i, entry);
    assert(eviews(entries@) =~= es.update(i as int, copy@));
    Ok(copy)
}

/// The entries without those whose id is `id`.
pub open spec fn without_id(es: Seq<EntryView>, id: Seq<char>) -> Seq<EntryView>
    decreases es.len(),
{
    if es.len() == 0 {
        Seq::empty()
    } else if es.last().id == id {
        without_id(es.drop_last(), id)
    } else {
        without_id(es.drop_last(), id).push(es.last())
    }
}

/// Removes every entry with the id `id`; an error when there is none.
pub fn delete_entry_in_entries(entries: &mut Vec<DictionaryEntry>, id: &str) -> (r: Result<(), String>)
    ensures
        without_id(eviews(old(entries)@), id@).len() == old(entries)@.len() ==> (r matches Err(x)
            && x@ == err_entry_not_found()),
        without_id(eviews(old(entries)@), id@).len() != old(entries)@.len() ==> r is Ok,
        eviews(final(entries)@) == without_id(eviews(old(entries)@), id@),
{
    let ghost es = eviews(entries@);
    let mut kept: Vec<DictionaryEntry> = Vec::new();
    let mut i: usize = 0;
    assert(eviews(kept@) =~= without_id(es.take(0), id@));
    while i < entries.len()
        invariant
            0 <= i <= entries.len(),
            es == eviews(entries@),
            eviews(kept@) == without_id(es.take(i as int), id@),
            kept.len() <= i,
        decreases entries.len() - i,
    {
        assert(es.take(i + 1).drop_last() =~= es.take(i as int));
        if !crate::text::str_eq(entries[i].id.as_str(), id) {
            let ghost before = eviews(kept@);
            kept.push(clone_entry(&entries[i]));
            assert(eviews(kept@) =~= before.push(es[i as int]));
        }
        i = i + 1;
    }
    assert(es.take(entries.len() as int) =~= es);
    let before = entries.len();
    let found = kept.len() != before;
    *entries = kept;
    if !found {
        return Err(owned("辞書項目が見つかりません。"));
    }
    Ok(())
}

// --- Learning and its undo ---------------------------------------------------------

proof fn lemma_first_entry_index_at(s: Seq<EntryView>, k: int, i: int)
    requires
        0 <= i <= k < s.len(),
        forall|j: int| 0 <= j < k ==> s[j].id != s[k].id,
    ensures
        first_entry_index(s, s[k].id, i) == Some(k),
    decreases k - i,
{
    if i < k {
        lemma_first_entry_index_at(s, k, i + 1);
    }
}

proof fn lemma_first_entry_index_absent(s: Seq<EntryView>, id: Seq<char>, i: int)
    requires
        0 <= i,
        forall|j: int| 0 <= j < s.len() ==> s[j].id != id,
    ensures
        first_entry_index(s, id, i) is None,
    decreases s.len() - i,
{
    if i < s.len() {
        lemma_first_entry_index_absent(s, id, i + 1);
    }
}

proof fn lemma_without_absent_rule(cs: Seq<(Seq<char>, Seq<char>)>, from: Seq<char>, to: Seq<char>)
    requires
        !has_from(cs, from),
    ensures
        without_rule(cs, from, to) == cs,
    decreases cs.len(),
{
    if cs.len() > 0 {
        assert(!has_from(cs.drop_last(), from)) by {
            if has_from(cs.drop_last(), from) {
                let i = choose|i: int| 0 <= i < cs.drop_last().len() && (#[trigger] cs.drop_last()[i]).0 == from;
                assert(cs[i] == cs.drop_last()[i]);
            }
        }
        lemma_without_absent_rule(cs.drop_last(), from, to);
        assert(cs.last() == cs[cs.len() - 1]);
        assert(cs.drop_last().push(cs.last()) =~= cs);
    }
}

proof fn lemma_preferred_index_in_range(es: Seq<EntryView>, to: Seq<char>, i: int)
    requires
        0 <= i,
    ensures
        first_preferred_index(es, to, i) matches Some(k) ==> i <= k < es.len() && es[k].preferred == to,
    decreases es.len() - i,
{
    if i < es.len() {
        lemma_preferred_index_in_range(es, to, i + 1);
    }
}

/// Undoing a correction just learned gives the entries back: the correction
/// leaves the entry it was added to (only that entry's update time moves), and
/// an entry created for it goes away. It fails only where the undo finds
/// another entry than the one learning touched, or finds it changed by
/// more than the correction: so the touched entry must be in normal form,
/// come first among the entries with its id, and not be an emptied learned
/// entry; a created entry's id must be free.
pub proof fn lemma_undo_reverts_learning(
    es: Seq<EntryView>,
    from: Seq<char>,
    to: Seq<char>,
    now: u64,
    undo_at: u64,
)
    requires
        upsert_result(es, from, to, now) matches Ok(Some(_)),
        match first_preferred_index(es, trim(to), 0) {
            Some(k) => {
                &&& normalized_entry(es[k]) == es[k]
                &&& forall|j: int| 0 <= j < k ==> (#[trigger] es[j]).id != es[k].id
                &&& es[k].source == DictionarySource::Learned ==> es[k].corrections.len() > 0
                    || es[k].aliases.len() > 0
            },
            None => forall|j: int| 0 <= j < es.len() ==> (#[trigger] es[j]).id != learned_entry_id(now),
        },
    ensures
        ({
            let r = upsert_result(es, from, to, now)->Ok_0->Some_0;
            let learned = upsert_entries(es, from, to, now);
            &&& undo_result(learned, r.0, r.1, r.2)
            &&& undo_entries(learned, r.0, r.1, r.2, undo_at) == match first_preferred_index(
                es,
                trim(to),
                0,
            ) {
                Some(k) => es.update(k, EntryView { updated_at: undo_at, ..es[k] }),
                None => es,
            }
        }),
{
    let f = trim(from);
    let t = trim(to);
    lemma_trim_idempotent(from);
    lemma_trim_idempotent(to);
    lemma_preferred_index_in_range(es, t, 0);
    match first_preferred_index(es, t, 0) {
        Some(k) => {
            let e = es[k];
            assert(!has_from(e.corrections, f)) by {
                if has_from(e.corrections, f) {
                    assert(blocks_learning(es, f));
                }
            }
            let cs = e.corrections;
            assert(normalized_corrections(cs) == cs);
            assert(cs.push((f, t)).drop_last() =~= cs);
            assert(normalized_corrections(cs.push((f, t))) == cs.push((f, t)));
            let ext = extended_entry(e, f, t, now);
            assert(ext == EntryView { corrections: cs.push((f, t)), updated_at: now, ..e });
            let learned = es.update(k, ext);
            assert forall|j: int| 0 <= j < k implies (#[trigger] learned[j]).id != learned[k].id by {
                assert(learned[j] == es[j]);
                assert(es[j].id != es[k].id);
            }
            lemma_first_entry_index_at(learned, k, 0);
            assert(learned[k].id == e.id);
            lemma_without_absent_rule(cs, f, t);
            assert(without_rule(cs.push((f, t)), f, t) == without_rule(cs, f, t));
            assert(undo_entries(learned, e.id, f, t, undo_at) =~= es.update(
                k,
                EntryView { updated_at: undo_at, ..es[k] },
            ));
        },
        None => {
            let n = new_learned_entry(f, t, now);
            assert(unique_values(Seq::<Seq<char>>::empty() + Seq::<Seq<char>>::empty())
                =~= Seq::<Seq<char>>::empty()) by {
                assert(Seq::<Seq<char>>::empty() + Seq::<Seq<char>>::empty() =~= Seq::<
                    Seq<char>,
                >::empty());
            }
            let one = seq![(f, t)];
            let none = Seq::<(Seq<char>, Seq<char>)>::empty();
            assert(one.drop_last() =~= none);
            assert(one.last() == (f, t));
            assert(normalized_corrections(none) == none);
            assert(!has_from(none, f));
            assert(add_correction(none, (f, t)) =~= one);
            assert(normalized_corrections(one) == add_correction(none, (f, t)));
            assert(n.corrections =~= one);
            let learned = es.push(n);
            let last = es.len() as int;
            assert forall|j: int| 0 <= j < last implies (#[trigger] learned[j]).id != learned[last].id by {
                assert(learned[j] == es[j]);
                assert(es[j].id != learned_entry_id(now));
            }
            lemma_first_entry_index_at(learned, es.len() as int, 0);
            assert(without_rule(none, f, t) == none);
            assert(without_rule(one, f, t) == without_rule(none, f, t));
            assert(learned.remove(es.len() as int) =~= es);
        },
    }
}

proof fn lemma_without_absent_id(es: Seq<EntryView>, id: Seq<char>)
    requires
        forall|i: int| 0 <= i < es.len() ==> (#[trigger] es[i]).id != id,
    ensures
        without_id(es, id) == es,
    decreases es.len(),
{
    if es.len() > 0 {
        assert(es.last() == es[es.len() - 1]);
        assert forall|i: int| 0 <= i < es.drop_last().len() implies (#[trigger] es.drop_last()[i]).id
            != id by {
            assert(es.drop_last()[i] == es[i]);
        }
        lemma_without_absent_id(es.drop_last(), id);
        assert(es.drop_last().push(es.last()) =~= es);
    }
}

/// Deleting the entry just created gives the dictionary back: when no entry
/// has the new entry's id and the new entry is valid, removing that id from
/// the dictionary with the entry appended leaves exactly the old entries, and
/// the removal is reported as done.
pub proof fn lemma_delete_undoes_create(es: Seq<EntryView>, input: DictionaryEntryInput, now: u64)
    requires
        forall|i: int| 0 <= i < es.len() ==> (#[trigger] es[i]).id != manual_entry_id(now),
        entry_error(entry_from_input(input, manual_entry_id(now), input.preferred@, now)) is None,
    ensures
        ({
            let e = entry_from_input(input, manual_entry_id(now), input.preferred@, now);
            &&& without_id(es.push(e), e.id) == es
            &&& without_id(es.push(e), e.id).len() != es.push(e).len()
        }),
{
    let e = entry_from_input(input, manual_entry_id(now), input.preferred@, now);
    assert(e.id == manual_entry_id(now));
    assert(es.push(e).drop_last() =~= es);
    assert(es.push(e).last() == e);
    lemma_without_absent_id(es, e.id);
}

/// Values as `unique_values` leaves them: trimmed, non-empty, distinct.
pub open spec fn clean_values(vs: Seq<Seq<char>>) -> bool {
    &&& forall|k: int| 0 <= k < vs.len() ==> trim(#[trigger] vs[k]) == vs[k] && vs[k].len() > 0
    &&& forall|a: int, b: int| 0 <= a < b < vs.len() ==> vs[a] != vs[b]
}

pub proof fn lemma_unique_values_clean(vs: Seq<Seq<char>>)
    ensures
        clean_values(unique_values(vs)),
    decreases vs.len(),
{
    if vs.len() > 0 {
        lemma_unique_values_clean(vs.drop_last());
        let out = unique_values(vs.drop_last());
        let t = trim(vs.last());
        lemma_trim_idempotent(vs.last());
        if !(t.len() == 0 || out.contains(t)) {
            let r = out.push(t);
            assert forall|a: int, b: int| 0 <= a < b < r.len() implies r[a] != r[b] by {
                if b == out.len() {
                    assert(r[a] == out[a]);
                    if r[a] == t {
                        assert(out.contains(t));
                    }
                }
            }
            assert forall|k: int| 0 <= k < r.len() implies trim(#[trigger] r[k]) == r[k] && r[k].len()
                > 0 by {
                if k < out.len() {
                    assert(r[k] == out[k]);
                }
            }
        }
    }
}

proof fn lemma_unique_values_of_clean(vs: Seq<Seq<char>>)
    requires
        clean_values(vs),
    ensures
        unique_values(vs) == vs,
    decreases vs.len(),
{
    if vs.len() > 0 {
        let init = vs.drop_last();
        assert forall|k: int| 0 <= k < init.len() implies trim(#[trigger] init[k]) == init[k]
            && init[k].len() > 0 by {
            assert(init[k] == vs[k]);
        }
        assert forall|a: int, b: int| 0 <= a < b < init.len() implies init[a] != init[b] by {
            assert(init[a] == vs[a] && init[b] == vs[b]);
        }
        lemma_unique_values_of_clean(init);
        let last = vs.last();
        assert(last == vs[vs.len() - 1]);
        assert(!init.contains(last)) by {
            if init.contains(last) {
                let a = choose|a: int| 0 <= a < init.len() && init[a] == last;
                assert(vs[a] == init[a]);
            }
        }
        assert(init.push(last) =~= vs);
    }
}

/// Corrections as `normalized_corrections` leaves them: both sides trimmed
/// and non-empty, different, and no source text ruled twice.
pub open spec fn clean_corrections(cs: Seq<(Seq<char>, Seq<char>)>) -> bool {
    &&& forall|k: int|
        0 <= k < cs.len() ==> trim((#[trigger] cs[k]).0) == cs[k].0 && trim(cs[k].1) == cs[k].1
            && cs[k].0.len() > 0 && cs[k].1.len() > 0 && cs[k].0 != cs[k].1
    &&& forall|a: int, b: int| 0 <= a < b < cs.len() ==> cs[a].0 != cs[b].0
}

proof fn lemma_normalized_corrections_clean(cs: Seq<(Seq<char>, Seq<char>)>)
    ensures
        clean_corrections(normalized_corrections(cs)),
    decreases cs.len(),
{
    if cs.len() > 0 {
        lemma_normalized_corrections_clean(cs.drop_last());
        let out = normalized_corrections(cs.drop_last());
        let c = cs.last();
        let f = trim(c.0);
        let t = trim(c.1);
        lemma_trim_idempotent(c.0);
        lemma_trim_idempotent(c.1);
        if !(f.len() == 0 || t.len() == 0 || f == t || has_from(out, f)) {
            let r = out.push((f, t));
            assert forall|a: int, b: int| 0 <= a < b < r.len() implies r[a].0 != r[b].0 by {
                if b == out.len() {
                    assert(r[a] == out[a]);
                    if r[a].0 == f {
                        assert(has_from(out, f));
                    }
                }
            }
            assert forall|k: int| 0 <= k < r.len() implies trim((#[trigger] r[k]).0) == r[k].0 && trim(
                r[k].1,
            ) == r[k].1 && r[k].0.len() > 0 && r[k].1.len() > 0 && r[k].0 != r[k].1 by {
                if k < out.len() {
                    assert(r[k] == out[k]);
                }
            }
        }
    }
}

proof fn lemma_normalized_corrections_of_clean(cs: Seq<(Seq<char>, Seq<char>)>)
    requires
        clean_corrections(cs),
    ensures
        normalized_corrections(cs) == cs,
    decreases cs.len(),
{
    if cs.len() > 0 {
        let init = cs.drop_last();
        assert forall|k: int| 0 <= k < init.len() implies trim((#[trigger] init[k]).0) == init[k].0
            && trim(init[k].1) == init[k].1 && init[k].0.len() > 0 && init[k].1.len() > 0
            && init[k].0 != init[k].1 by {
            assert(init[k] == cs[k]);
        }
        assert forall|a: int, b: int| 0 <= a < b < init.len() implies init[a].0 != init[b].0 by {
            assert(init[a] == cs[a] && init[b] == cs[b]);
        }
        lemma_normalized_corrections_of_clean(init);
        let last = cs.last();
        assert(last == cs[cs.len() - 1]);
        assert(!has_from(init, last.0)) by {
            if has_from(init, last.0) {
                let a = choose|a: int| 0 <= a < init.len() && (#[trigger] init[a]).0 == last.0;
                assert(cs[a] == init[a]);
            }
        }
        assert(init.push((last.0, last.1)) =~= cs);
    }
}

/// Normalizing an entry twice is normalizing it once: a dictionary read,
/// saved and read again keeps its entries as they were.
pub proof fn lemma_normalize_entry_idempotent(e: EntryView)
    ensures
        normalized_entry(normalized_entry(e)) == normalized_entry(e),
{
    let n = normalized_entry(e);
    lemma_trim_idempotent(e.preferred);
    lemma_unique_values_clean(e.readings + e.aliases);
    lemma_unique_values_of_clean(n.aliases);
    assert(Seq::<Seq<char>>::empty() + n.aliases =~= n.aliases);
    lemma_normalized_corrections_clean(e.corrections);
    lemma_normalized_corrections_of_clean(n.corrections);
}

/// A correction that can rewrite a transcript: its trimmed source and
/// target are both non-empty and differ.
pub open spec fn usable_rule(c: (Seq<char>, Seq<char>)) -> bool {
    trim(c.0).len() > 0 && trim(c.1).len() > 0 && trim(c.0) != trim(c.1)
}

proof fn lemma_collected_rules_enabled(es: Seq<EntryView>)
    ensures
        collected_rules(es.filter(|e: EntryView| e.enabled)) == collected_rules(es),
    decreases es.len(),
{
    reveal(Seq::filter);
    if es.len() > 0 {
        lemma_collected_rules_enabled(es.drop_last());
        let f = es.drop_last().filter(|e: EntryView| e.enabled);
        if es.last().enabled {
            assert(f.push(es.last()).drop_last() =~= f);
        }
    }
}

proof fn lemma_add_unusable(rules: Seq<(Seq<char>, Seq<char>)>, cs: Seq<(Seq<char>, Seq<char>)>)
    requires
        forall|j: int| 0 <= j < cs.len() ==> !usable_rule(#[trigger] cs[j]),
    ensures
        add_corrections(rules, cs) == rules,
    decreases cs.len(),
{
    if cs.len() > 0 {
        assert(!usable_rule(cs[cs.len() - 1]));
        lemma_add_unusable(rules, cs.drop_last());
    }
}

proof fn lemma_collected_unusable(es: Seq<EntryView>)
    requires
        forall|i: int, j: int|
            0 <= i < es.len() && es[i].enabled && 0 <= j < es[i].corrections.len()
                ==> !usable_rule(#[trigger] es[i].corrections[j]),
    ensures
        collected_rules(es) == Seq::<(Seq<char>, Seq<char>)>::empty(),
    decreases es.len(),
{
    if es.len() > 0 {
        lemma_collected_unusable(es.drop_last());
        let l = es[es.len() - 1];
        if l.enabled {
            assert forall|j: int| 0 <= j < l.corrections.len() implies !usable_rule(#[trigger] l.corrections[j]) by {
                assert(es[es.len() - 1].corrections[j] == l.corrections[j]);
            }
            lemma_add_unusable(Seq::empty(), l.corrections);
        }
    }
}

/// Disabled entries take no part in correcting a transcript: the result is
/// the one the enabled entries alone give.
pub proof fn lemma_corrections_ignore_disabled(t: Seq<char>, es: Seq<EntryView>)
    ensures
        apply_rules(t, replacement_rules(es.filter(|e: EntryView| e.enabled)))
            == apply_rules(t, replacement_rules(es)),
{
    lemma_collected_rules_enabled(es);
}

/// A transcript comes back unchanged when no enabled entry holds a usable
/// correction: with no entries, with disabled entries only, or with entries
/// that carry aliases and no rules.
pub proof fn lemma_corrections_without_rules(t: Seq<char>, es: Seq<EntryView>)
    requires
        forall|i: int, j: int|
            0 <= i < es.len() && es[i].enabled && 0 <= j < es[i].corrections.len()
                ==> !usable_rule(#[trigger] es[i].corrections[j]),
    ensures
        apply_rules(t, replacement_rules(es)) == t,
{
    lemma_collected_unusable(es);
    assert(sort_by_length(Seq::<(Seq<char>, Seq<char>)>::empty()) == Seq::<(Seq<char>, Seq<char>)>::empty());
}

proof fn lemma_without_missing_rule(cs: Seq<(Seq<char>, Seq<char>)>, from: Seq<char>, to: Seq<char>)
    requires
        !cs.contains((from, to)),
    ensures
        without_rule(cs, from, to) == cs,
    decreases cs.len(),
{
    if cs.len() > 0 {
        assert(!cs.drop_last().contains((from, to))) by {
            if cs.drop_last().contains((from, to)) {
                let i = choose|i: int| 0 <= i < cs.drop_last().len() && cs.drop_last()[i] == (from, to);
                assert(cs[i] == cs.drop_last()[i]);
            }
        }
        lemma_without_missing_rule(cs.drop_last(), from, to);
        assert(cs.last() == cs[cs.len() - 1]);
        assert(cs.drop_last().push(cs.last()) =~= cs);
    }
}

/// Undoing a rule that is not there changes nothing and reports nothing
/// removed: no entry has the id, or the first entry with it holds no
/// correction exactly `from -> to`.
pub proof fn lemma_undo_missing_rule(es: Seq<EntryView>, id: Seq<char>, from: Seq<char>, to: Seq<char>, now: u64)
    requires
        first_entry_index(es, id, 0) matches Some(k) ==> !es[k].corrections.contains((from, to)),
    ensures
        !undo_result(es, id, from, to),
        undo_entries(es, id, from, to, now) == es,
{
    if let Some(k) = first_entry_index(es, id, 0) {
        lemma_without_missing_rule(es[k].corrections, from, to);
    }
}

/// Undoing a learned correction whose entry id no entry had before removes
/// the entry that learning created, and the entries are exactly the old ones.
pub proof fn lemma_undo_removes_created_entry(
    es: Seq<EntryView>,
    from: Seq<char>,
    to: Seq<char>,
    now: u64,
    undo_at: u64,
)
    requires
        upsert_result(es, from, to, now) matches Ok(Some(r)) && forall|j: int|
            0 <= j < es.len() ==> (#[trigger] es[j]).id != r.0,
    ensures
        ({
            let r = upsert_result(es, from, to, now)->Ok_0->Some_0;
            let learned = upsert_entries(es, from, to, now);
            &&& undo_result(learned, r.0, r.1, r.2)
            &&& undo_entries(learned, r.0, r.1, r.2, undo_at) == es
        }),
{
    lemma_preferred_index_in_range(es, trim(to), 0);
    if let Some(k) = first_preferred_index(es, trim(to), 0) {
        assert(es[k].id == upsert_result(es, from, to, now)->Ok_0->Some_0.0);
    }
    lemma_undo_reverts_learning(es, from, to, now, undo_at);
}

// --- The order of the correction rules ---------------------------------------------

/// No rule comes after a rule whose source text is shorter.
pub open spec fn longest_first(rs: Seq<(Seq<char>, Seq<char>)>) -> bool {
    forall|i: int, j: int| 0 <= i < j < rs.len() ==> rs[i].0.len() >= rs[j].0.len()
}

/// The rules whose source text has `n` characters, in their order.
pub open spec fn rules_of_length(rs: Seq<(Seq<char>, Seq<char>)>, n: nat) -> Seq<(Seq<char>, Seq<char>)>
    decreases rs.len(),
{
    if rs.len() == 0 {
        Seq::empty()
    } else if rs.last().0.len() == n {
        rules_of_length(rs.drop_last(), n).push(rs.last())
    } else {
        rules_of_length(rs.drop_last(), n)
    }
}

proof fn lemma_rules_of_length_add(a: Seq<(Seq<char>, Seq<char>)>, b: Seq<(Seq<char>, Seq<char>)>, n: nat)
    ensures
        rules_of_length(a + b, n) == rules_of_length(a, n) + rules_of_length(b, n),
    decreases b.len(),
{
    if b.len() == 0 {
        assert(a + b =~= a);
        assert(rules_of_length(a, n) + Seq::empty() =~= rules_of_length(a, n));
    } else {
        assert((a + b).drop_last() =~= a + b.drop_last());
        assert((a + b).last() == b.last());
        lemma_rules_of_length_add(a, b.drop_last(), n);
        if b.last().0.len() == n {
            assert(rules_of_length(a, n) + rules_of_length(b.drop_last(), n).push(b.last()) =~= (
            rules_of_length(a, n) + rules_of_length(b.drop_last(), n)).push(b.last()));
        }
    }
}

proof fn lemma_rules_of_length_none(b: Seq<(Seq<char>, Seq<char>)>, n: nat)
    requires
        forall|k: int| 0 <= k < b.len() ==> (#[trigger] b[k]).0.len() != n,
    ensures
        rules_of_length(b, n) == Seq::<(Seq<char>, Seq<char>)>::empty(),
    decreases b.len(),
{
    if b.len() > 0 {
        assert(b.last() == b[b.len() - 1]);
        lemma_rules_of_length_none(b.drop_last(), n);
    }
}

proof fn lemma_length_position_bounds(s: Seq<(Seq<char>, Seq<char>)>, r: (Seq<char>, Seq<char>), j: int)
    requires
        0 <= j <= s.len(),
    ensures
        0 <= length_position(s, r, j) <= j,
        forall|k: int| length_position(s, r, j) <= k < j ==> (#[trigger] s[k]).0.len() < r.0.len(),
        length_position(s, r, j) > 0 ==> s[length_position(s, r, j) - 1].0.len() >= r.0.len(),
    decreases j,
{
    if j > 0 && s[j - 1].0.len() < r.0.len() {
        lemma_length_position_bounds(s, r, j - 1);
    }
}

proof fn lemma_insert_by_length_order(s: Seq<(Seq<char>, Seq<char>)>, r: (Seq<char>, Seq<char>))
    requires
        longest_first(s),
    ensures
        longest_first(insert_by_length(s, r)),
        forall|n: nat| #[trigger] rules_of_length(insert_by_length(s, r), n) == if r.0.len() == n {
            rules_of_length(s, n).push(r)
        } else {
            rules_of_length(s, n)
        },
{
    lemma_insert_by_length(s, r);
    let p = length_position(s, r, s.len() as int);
    lemma_length_position_bounds(s, r, s.len() as int);
    let a = s.subrange(0, p);
    let b = s.subrange(p, s.len() as int);
    let out = insert_by_length(s, r);
    assert(out == a.push(r) + b);
    assert forall|k: int| 0 <= k < p implies (#[trigger] s[k]).0.len() >= r.0.len() by {
        assert(s[k].0.len() >= s[p - 1].0.len());
    }
    assert forall|i: int, j: int| 0 <= i < j < out.len() implies out[i].0.len() >= out[j].0.len() by {
        if i < p {
            assert(out[i] == s[i]);
            if j < p {
                assert(out[j] == s[j]);
            } else if j == p {
                assert(out[j] == r);
            } else {
                assert(out[j] == s[j - 1]);
            }
        } else if i == p {
            assert(out[i] == r);
            assert(out[j] == s[j - 1]);
        } else {
            assert(out[i] == s[i - 1]);
            assert(out[j] == s[j - 1]);
        }
    }
    assert(s == a + b);
    assert forall|n: nat| #[trigger] rules_of_length(insert_by_length(s, r), n) == if r.0.len() == n {
        rules_of_length(s, n).push(r)
    } else {
        rules_of_length(s, n)
    } by {
        lemma_rules_of_length_add(a.push(r), b, n);
        lemma_rules_of_length_add(a, b, n);
        assert(a.push(r).drop_last() =~= a);
        assert(a.push(r).last() == r);
        if r.0.len() == n {
            assert forall|k: int| 0 <= k < b.len() implies (#[trigger] b[k]).0.len() != n by {
                assert(b[k] == s[p + k]);
            }
            lemma_rules_of_length_none(b, n);
            assert(rules_of_length(a, n) + Seq::<(Seq<char>, Seq<char>)>::empty() =~= rules_of_length(a, n));
            assert(rules_of_length(a, n).push(r) + Seq::<(Seq<char>, Seq<char>)>::empty() =~= rules_of_length(a, n).push(r));
        }
    }
}

/// Sorting the rules puts the longer source texts first and is stable: for
/// every length, the rules of that length come out exactly as they went in,
/// in the same order (so no rule is lost, added or reordered among equals).
pub proof fn lemma_sort_by_length_stable(rs: Seq<(Seq<char>, Seq<char>)>)
    ensures
        longest_first(sort_by_length(rs)),
        forall|n: nat| #[trigger] rules_of_length(sort_by_length(rs), n) == rules_of_length(rs, n),
    decreases rs.len(),
{
    if rs.len() > 0 {
        lemma_sort_by_length_stable(rs.drop_last());
        lemma_insert_by_length_order(sort_by_length(rs.drop_last()), rs.last());
    }
}

/// A transcript is corrected with the longest source texts first: the rules
/// in the order they apply never put a shorter source before a longer one,
/// and among the rules of one length keep the order in which the entries
/// give them.
pub proof fn lemma_replacement_rules_longest_first(es: Seq<EntryView>)
    ensures
        longest_first(replacement_rules(es)),
        forall|n: nat| #[trigger] rules_of_length(replacement_rules(es), n) == rules_of_length(
            collected_rules(es),
            n,
        ),
{
    lemma_sort_by_length_stable(collected_rules(es));
}

// --- Adding words in a batch -----------------------------------------------------------

proof fn lemma_batch_state_parts(es: Seq<EntryView>, inputs: Seq<DictionaryEntryInput>, n: int, now: u64)
    requires
        0 <= n <= inputs.len(),
    ensures
        ({
            let st = batch_state(es, inputs, n, now);
            &&& st.0 == es + st.1
            &&& st.3 == es.map_values(|e: EntryView| e.preferred) + st.1.map_values(|e: EntryView| e.preferred)
            &&& st.2 + st.1.len() == n
            &&& forall|i: int| 0 <= i < st.1.len() ==> (#[trigger] st.1[i]).preferred.len() > 0
        }),
    decreases n,
{
    if n == 0 {
        assert(es + Seq::<EntryView>::empty() =~= es);
        assert(es.map_values(|e: EntryView| e.preferred) + Seq::<EntryView>::empty().map_values(
            |e: EntryView| e.preferred,
        ) =~= es.map_values(|e: EntryView| e.preferred));
    } else {
        lemma_batch_state_parts(es, inputs, n - 1, now);
        let prev = batch_state(es, inputs, n - 1, now);
        let input = inputs[n - 1];
        let preferred = trim(input.preferred@);
        if !(preferred.len() == 0 || prev.3.contains(preferred)) {
            let e = entry_from_input(input, batch_entry_id(now, n - 1), preferred, now);
            if entry_error(e) is None {
                lemma_trim_idempotent(input.preferred@);
                assert(e.preferred == preferred);
                assert(prev.1.push(e).map_values(|x: EntryView| x.preferred) =~= prev.1.map_values(
                    |x: EntryView| x.preferred,
                ).push(e.preferred));
                assert(es + prev.1.push(e) =~= (es + prev.1).push(e));
            }
        }
    }
}

/// Adding words in a batch never adds a word twice: every added entry has a
/// non-empty preferred text that no entry already in the dictionary has and
/// no other added entry has; the dictionary becomes the old entries followed
/// by the added ones, and every input is either added or counted as skipped.
pub proof fn lemma_batch_adds_only_new_words(
    es: Seq<EntryView>,
    inputs: Seq<DictionaryEntryInput>,
    n: int,
    now: u64,
)
    requires
        0 <= n <= inputs.len(),
    ensures
        ({
            let st = batch_state(es, inputs, n, now);
            &&& st.0 == es + st.1
            &&& st.2 + st.1.len() == n
            &&& forall|i: int| 0 <= i < st.1.len() ==> (#[trigger] st.1[i]).preferred.len() > 0
            &&& forall|i: int, j: int|
                0 <= i < st.1.len() && 0 <= j < es.len() ==> (#[trigger] st.1[i]).preferred
                    != (#[trigger] es[j]).preferred
            &&& forall|i: int, j: int|
                0 <= i < j < st.1.len() ==> (#[trigger] st.1[i]).preferred != (#[trigger] st.1[j]).preferred
        }),
    decreases n,
{
    lemma_batch_state_parts(es, inputs, n, now);
    if n > 0 {
        lemma_batch_adds_only_new_words(es, inputs, n - 1, now);
        lemma_batch_state_parts(es, inputs, n - 1, now);
        let prev = batch_state(es, inputs, n - 1, now);
        let st = batch_state(es, inputs, n, now);
        let input = inputs[n - 1];
        let preferred = trim(input.preferred@);
        if !(preferred.len() == 0 || prev.3.contains(preferred)) {
            let e = entry_from_input(input, batch_entry_id(now, n - 1), preferred, now);
            if entry_error(e) is None {
                lemma_trim_idempotent(input.preferred@);
                assert(st.1 == prev.1.push(e));
                let seen = prev.3;
                assert forall|j: int| 0 <= j < es.len() implies es[j].preferred != e.preferred by {
                    assert(seen[j] == es[j].preferred);
                }
                assert forall|i: int| 0 <= i < prev.1.len() implies prev.1[i].preferred != e.preferred by {
                    assert(seen[es.len() + i] == prev.1[i].preferred);
                }
                assert forall|i: int, j: int|
                    0 <= i < st.1.len() && 0 <= j < es.len() implies (#[trigger] st.1[i]).preferred
                        != (#[trigger] es[j]).preferred by {
                    if i < prev.1.len() {
                        assert(st.1[i] == prev.1[i]);
                    }
                }
                assert forall|i: int, j: int|
                    0 <= i < j < st.1.len() implies (#[trigger] st.1[i]).preferred
                        != (#[trigger] st.1[j]).preferred by {
                    assert(st.1[i] == prev.1[i]);
                    if j < prev.1.len() {
                        assert(st.1[j] == prev.1[j]);
                    }
                }
            }
        }
    }
}

} // verus!
