//! What the screen showed when a voice session began, and how it is put into
//! prompts: hint terms for speech recognition and a labelled section for the
//! finalizing model.
use vstd::prelude::*;

use crate::dictionary::{
    enabled_phrase_list, enabled_phrases, eviews, prompt_lines, prompt_text, DictionaryEntry,
};
use crate::live::{live_provider_for, should_use_live_transcript, VoiceMode};
use crate::paste::PasteTargetInfo;
use crate::settings::{profile_or_default_index, pviews, AppSettings, SpeechProfile};
use crate::text::{
    all_digits, append_chars, append_str_chars, chars_of, collapse_ws, collapse_ws_chars, is_blank,
    is_blank_str, join, join_chars, lemma_split_on_nonempty, split_chars, split_on, str_eq,
    string_from_chars, string_from_range, sviews, trim, trim_chars, vviews,
};
use crate::text_diff::{char_index_at_utf16, range_end, utf16_offset_to_char_index, TextRange};

verus! {

/// Characters of the text around the cursor, on each side.
pub const SCREEN_CONTEXT_SIDE_CHARS: usize = 1400;

/// Characters of visible window text.
pub const SCREEN_CONTEXT_VISIBLE_MAX_CHARS: usize = 6000;

/// Characters of OCR text.
pub const SCREEN_CONTEXT_OCR_MAX_CHARS: usize = 6000;

/// Hint terms taken from the screen at most.
pub const SCREEN_CONTEXT_ASR_MAX_TERMS: usize = 180;

/// The longest hint term, in characters.
pub const SCREEN_CONTEXT_ASR_MAX_TERM_CHARS: usize = 48;

// --- Trusted: Unicode case and character classes from std ------------------

/// The result of `str::to_lowercase` on a text.
pub uninterp spec fn lowercase_of(s: Seq<char>) -> Seq<char>;

/// `str::to_lowercase`: the Unicode lower case of the text. Its result is a
/// function of the text alone; nothing more of it is stated.
#[verifier::external_body]
pub(crate) fn lowercase(s: &str) -> (r: String)
    ensures
        r@ == lowercase_of(s@),
{
    s.to_lowercase()
}

/// The result of `char::is_alphanumeric`.
pub uninterp spec fn alphanumeric(c: char) -> bool;

/// `char::is_alphanumeric`: the character is alphabetic or numeric in the
/// Unicode tables. Only that the answer depends on the character alone is stated.
#[verifier::external_body]
fn char_is_alphanumeric(c: char) -> (r: bool)
    ensures
        r == alphanumeric(c),
{
    c.is_alphanumeric()
}

// --- Shortening and normalizing ---------------------------------------------

/// At most the first `max` characters.
pub open spec fn clamped(s: Seq<char>, max: nat) -> Seq<char> {
    if s.len() <= max {
        s
    } else {
        s.take(max as int)
    }
}

/// At most the last `max` characters.
pub open spec fn clamped_from_end(s: Seq<char>, max: nat) -> Seq<char> {
    if s.len() <= max {
        s
    } else {
        s.skip(s.len() - max)
    }
}

pub fn clamp_chars(value: &str, max_chars: usize) -> (r: String)
    ensures
        r@ == clamped(value@, max_chars as nat),
{
    let v = chars_of(value);
    if v.len() <= max_chars {
        return string_from_chars(&v);
    }
    string_from_range(&v, 0, max_chars)
}

pub fn clamp_chars_from_end(value: &str, max_chars: usize) -> (r: String)
    ensures
        r@ == clamped_from_end(value@, max_chars as nat),
{
    let v = chars_of(value);
    if v.len() <= max_chars {
        return string_from_chars(&v);
    }
    let r = string_from_range(&v, v.len() - max_chars, v.len());
    assert(v@.subrange(v.len() - max_chars, v.len() as int) =~= v@.skip(v.len() - max_chars));
    r
}

/// A line with its white space collapsed to single spaces.
pub fn normalize_context_line(value: &str) -> (r: String)
    ensures
        r@ == collapse_ws(value@),
{
    let v = chars_of(value);
    string_from_chars(&collapse_ws_chars(&v))
}

/// The non-empty lines with their white space collapsed, one per line.
/// (Reading lines as pieces between line breaks agrees with `str::lines`:
/// collapsing drops a `\r`, and an empty last piece is left out.)
pub open spec fn normalized_block(s: Seq<char>) -> Seq<char> {
    join(
        split_on(s, '\n').map_values(|l: Seq<char>| collapse_ws(l)).filter(
            |l: Seq<char>| l.len() > 0,
        ),
        seq!['\n'],
    )
}

pub fn normalize_context_block(value: &str) -> (r: String)
    ensures
        r@ == normalized_block(value@),
{
    let v = chars_of(value);
    let lines = split_chars(&v, '\n');
    let ghost all = vviews(lines@).map_values(|l: Seq<char>| collapse_ws(l));
    let mut kept: Vec<Vec<char>> = Vec::new();
    let mut i: usize = 0;
    while i < lines.len()
        invariant
            0 <= i <= lines.len(),
            all == vviews(lines@).map_values(|l: Seq<char>| collapse_ws(l)),
            vviews(kept@) == all.take(i as int).filter(|l: Seq<char>| l.len() > 0),
        decreases lines.len() - i,
    {
        let line = collapse_ws_chars(&lines[i]);
        let ghost before = vviews(kept@);
        proof {
            reveal(Seq::filter);
        }
        assert(all.take(i + 1).drop_last() =~= all.take(i as int));
        assert(all.take(i + 1).last() == line@);
        if line.len() > 0 {
            kept.push(line);
            assert(vviews(kept@) =~= before.push(all[i as int]));
        }
        i = i + 1;
    }
    assert(all.take(lines.len() as int) =~= all);
    let sep = vec!['\n'];
    assert(sep@ =~= seq!['\n']);
    string_from_chars(&join_chars(&kept, &sep))
}

/// The text is missing or blank.
pub open spec fn opt_blank(o: Option<String>) -> bool {
    match o {
        Some(s) => is_blank(s@),
        None => true,
    }
}

pub fn option_text_is_empty(value: &Option<String>) -> (r: bool)
    ensures
        r == opt_blank(*value),
{
    match value {
        Some(s) => is_blank_str(s.as_str()),
        None => true,
    }
}

// --- Hint terms ---------------------------------------------------------------

/// A character that belongs to a hint term: letters and digits, the symbols
/// of code and product names, kana and CJK ideographs.
pub open spec fn term_char(c: char) -> bool {
    ||| alphanumeric(c)
    ||| c == '_' || c == '-' || c == '.' || c == '/' || c == '\\' || c == '@' || c == '#' || c
        == '$' || c == '%' || c == '&' || c == '+' || c == ':' || c == '*'
    ||| 0x3040 <= (c as u32) <= 0x30ff
    ||| 0x3400 <= (c as u32) <= 0x9fff
}

pub fn is_context_term_char(ch: char) -> (r: bool)
    ensures
        r == term_char(ch),
{
    char_is_alphanumeric(ch) || ch == '_' || ch == '-' || ch == '.' || ch == '/' || ch == '\\' || ch
        == '@' || ch == '#' || ch == '$' || ch == '%' || ch == '&' || ch == '+' || ch == ':' || ch
        == '*' || (0x3040 <= (ch as u32) && (ch as u32) <= 0x30ff) || (0x3400 <= (ch as u32) && (
    ch as u32) <= 0x9fff)
}

/// Punctuation stripped from both ends of a term.
pub open spec fn edge_punct(c: char) -> bool {
    c == '.' || c == ',' || c == ':' || c == ';' || c == '/' || c == '\\' || c == '-' || c == '_'
        || c == '@' || c == '#' || c == '$' || c == '%' || c == '&' || c == '*'
}

pub open spec fn strip_front(s: Seq<char>) -> Seq<char>
    decreases s.len(),
{
    if s.len() > 0 && edge_punct(s[0]) {
        strip_front(s.drop_first())
    } else {
        s
    }
}

pub open spec fn strip_back(s: Seq<char>) -> Seq<char>
    decreases s.len(),
{
    if s.len() > 0 && edge_punct(s.last()) {
        strip_back(s.drop_last())
    } else {
        s
    }
}

/// A term with edge punctuation and white space trimmed off.
pub open spec fn term_value(raw: Seq<char>) -> Seq<char> {
    trim(strip_back(strip_front(raw)))
}

/// The lower-case keys of the terms taken so far.
pub open spec fn term_keys(out: Seq<Seq<char>>) -> Seq<Seq<char>> {
    out.map_values(|t: Seq<char>| lowercase_of(t))
}

/// Takes one candidate term: unless the list is full, it is 2 to 48
/// characters, not only digits, and new ignoring case.
pub open spec fn push_term(out: Seq<Seq<char>>, raw: Seq<char>) -> Seq<Seq<char>> {
    let v = term_value(raw);
    if out.len() >= SCREEN_CONTEXT_ASR_MAX_TERMS || v.len() < 2 || v.len()
        > SCREEN_CONTEXT_ASR_MAX_TERM_CHARS || all_digits(v) || term_keys(out).contains(
        lowercase_of(v),
    ) {
        out
    } else {
        out.push(v)
    }
}

/// The runs of term characters (and the empty runs between separators).
pub open spec fn term_pieces(s: Seq<char>) -> Seq<Seq<char>>
    decreases s.len(),
{
    if s.len() == 0 {
        seq![Seq::empty()]
    } else {
        let r = term_pieces(s.drop_last());
        if !term_char(s.last()) {
            r.push(Seq::empty())
        } else {
            r.update(r.len() - 1, r.last().push(s.last()))
        }
    }
}

pub proof fn lemma_term_pieces_nonempty(s: Seq<char>)
    ensures
        term_pieces(s).len() >= 1,
    decreases s.len(),
{
    if s.len() > 0 {
        lemma_term_pieces_nonempty(s.drop_last());
    }
}

/// Each candidate taken in turn.
pub open spec fn push_terms(out: Seq<Seq<char>>, raws: Seq<Seq<char>>) -> Seq<Seq<char>>
    decreases raws.len(),
{
    if raws.len() == 0 {
        out
    } else {
        push_term(push_terms(out, raws.drop_last()), raws.last())
    }
}

/// The terms of `text` added to `out`.
pub open spec fn extract_terms(out: Seq<Seq<char>>, text: Seq<char>) -> Seq<Seq<char>> {
    push_terms(out, term_pieces(text))
}

fn strip_edge_punct(v: &Vec<char>) -> (r: Vec<char>)
    ensures
        r@ == strip_back(strip_front(v@)),
{
    let mut lo: usize = 0;
    assert(v@.skip(0) =~= v@);
    while lo < v.len() && (v[lo] == '.' || v[lo] == ',' || v[lo] == ':' || v[lo] == ';' || v[lo]
        == '/' || v[lo] == '\\' || v[lo] == '-' || v[lo] == '_' || v[lo] == '@' || v[lo] == '#'
        || v[lo] == '$' || v[lo] == '%' || v[lo] == '&' || v[lo] == '*')
        invariant
            0 <= lo <= v.len(),
            strip_front(v@) == strip_front(v@.skip(lo as int)),
        decreases v.len() - lo,
    {
        assert(v@.skip(lo + 1) =~= v@.skip(lo as int).drop_first());
        lo = lo + 1;
    }
    let ghost f = v@.skip(lo as int);
    assert(strip_front(f) == f);
    let mut hi: usize = v.len();
    while hi > lo && (v[hi - 1] == '.' || v[hi - 1] == ',' || v[hi - 1] == ':' || v[hi - 1] == ';'
        || v[hi - 1] == '/' || v[hi - 1] == '\\' || v[hi - 1] == '-' || v[hi - 1] == '_' || v[hi
        - 1] == '@' || v[hi - 1] == '#' || v[hi - 1] == '$' || v[hi - 1] == '%' || v[hi - 1] == '&'
        || v[hi - 1] == '*')
        invariant
            lo <= hi <= v.len(),
            f == v@.skip(lo as int),
            strip_back(f) == strip_back(v@.subrange(lo as int, hi as int)),
        decreases hi,
    {
        assert(v@.subrange(lo as int, hi - 1) =~= v@.subrange(lo as int, hi as int).drop_last());
        hi = hi - 1;
    }
    assert(v@.skip(lo as int) =~= v@.subrange(lo as int, v.len() as int));
    let mut r: Vec<char> = Vec::new();
    let mut i: usize = lo;
    while i < hi
        invariant
            lo <= i <= hi,
            hi <= v.len(),
            r@ == v@.subrange(lo as int, i as int),
        decreases hi - i,
    {
        r.push(v[i]);
        assert(r@ =~= v@.subrange(lo as int, i + 1));
        i = i + 1;
    }
    r
}

fn all_ascii_digits(v: &Vec<char>) -> (r: bool)
    ensures
        r == all_digits(v@),
{
    let mut i: usize = 0;
    while i < v.len()
        invariant
            0 <= i <= v.len(),
            forall|k: int| 0 <= k < i ==> crate::text::is_digit(#[trigger] v@[k]),
        decreases v.len() - i,
    {
        if !('0' <= v[i] && v[i] <= '9') {
            return false;
        }
        i = i + 1;
    }
    true
}

/// `keys` holds the lower-case forms of `out`, in order.
pub open spec fn keyed(out: Seq<String>, keys: Seq<String>) -> bool {
    sviews(keys) == term_keys(sviews(out))
}

fn contains_key(keys: &Vec<String>, key: &String) -> (r: bool)
    ensures
        r == sviews(keys@).contains(key@),
{
    let mut i: usize = 0;
    while i < keys.len()
        invariant
            0 <= i <= keys.len(),
            forall|k: int| 0 <= k < i ==> sviews(keys@)[k] != key@,
        decreases keys.len() - i,
    {
        if str_eq(keys[i].as_str(), key.as_str()) {
            assert(sviews(keys@)[i as int] == key@);
            return true;
        }
        i = i + 1;
    }
    false
}

/// Takes the candidate `raw` as `push_term` says.
fn push_context_term(raw: &Vec<char>, out: &mut Vec<String>, keys: &mut Vec<String>)
    requires
        keyed(old(out)@, old(keys)@),
    ensures
        keyed(final(out)@, final(keys)@),
        sviews(final(out)@) == push_term(sviews(old(out)@), raw@),
{
    if out.len() >= SCREEN_CONTEXT_ASR_MAX_TERMS {
        return ;
    }
    let value = trim_chars(&strip_edge_punct(raw));
    if value.len() < 2 || value.len() > SCREEN_CONTEXT_ASR_MAX_TERM_CHARS {
        return ;
    }
    if all_ascii_digits(&value) {
        return ;
    }
    let s = string_from_chars(&value);
    let key = lowercase(s.as_str());
    if contains_key(keys, &key) {
        return ;
    }
    let ghost o = sviews(out@);
    let ghost k = sviews(keys@);
    out.push(s);
    keys.push(key);
    assert(sviews(out@) =~= o.push(value@));
    assert(sviews(keys@) =~= k.push(lowercase_of(value@)));
    assert(term_keys(sviews(out@)) =~= term_keys(o).push(lowercase_of(value@)));
}

/// Adds the terms of `text` to `out`.
fn extract_screen_context_terms(text: &str, out: &mut Vec<String>, keys: &mut Vec<String>)
    requires
        keyed(old(out)@, old(keys)@),
    ensures
        keyed(final(out)@, final(keys)@),
        sviews(final(out)@) == extract_terms(sviews(old(out)@), text@),
{
    let v = chars_of(text);
    let ghost out0 = sviews(out@);
    let mut current: Vec<char> = Vec::new();
    let mut i: usize = 0;
    assert(v@.take(0) =~= Seq::<char>::empty());
    assert(term_pieces(v@.take(0)).drop_last() =~= Seq::<Seq<char>>::empty());
    while i < v.len()
        invariant
            0 <= i <= v.len(),
            keyed(out@, keys@),
            term_pieces(v@.take(i as int)).len() >= 1,
            current@ == term_pieces(v@.take(i as int)).last(),
            sviews(out@) == push_terms(out0, term_pieces(v@.take(i as int)).drop_last()),
        decreases v.len() - i,
    {
        let ghost ps = term_pieces(v@.take(i as int));
        assert(v@.take(i + 1).drop_last() =~= v@.take(i as int));
        let c = v[i];
        if is_context_term_char(c) {
            current.push(c);
            let ghost qs = term_pieces(v@.take(i + 1));
            assert(qs == ps.update(ps.len() - 1, ps.last().push(c)));
            assert(qs.drop_last() =~= ps.drop_last());
        } else {
            push_context_term(&current, out, keys);
            current = Vec::new();
            let ghost qs = term_pieces(v@.take(i + 1));
            assert(qs == ps.push(Seq::empty()));
            assert(qs.drop_last() =~= ps);
            assert(ps.drop_last().push(ps.last()) =~= ps);
        }
        i = i + 1;
    }
    assert(v@.take(v.len() as int) =~= v@);
    let ghost ps = term_pieces(v@);
    push_context_term(&current, out, keys);
    assert(ps.drop_last().push(ps.last()) =~= ps);
}

// --- The captured context -----------------------------------------------------

/// What the screen showed when a voice session began.
#[derive(Debug, Clone)]
pub struct VoiceScreenContext {
    pub app_name: Option<String>,
    pub window_title: Option<String>,
    pub element_role: Option<String>,
    pub focused_before: String,
    pub focused_selection: String,
    pub focused_after: String,
    pub visible_text: String,
    pub ocr_text: String,
    pub details: Vec<String>,
}

/// What the OCR helper read off the screen.
#[derive(Debug, Clone)]
pub struct VoiceScreenContextOcr {
    pub app_name: Option<String>,
    pub window_title: Option<String>,
    pub text: String,
    pub details: Vec<String>,
}

/// The text, or nothing.
pub open spec fn opt_text(o: Option<String>) -> Seq<char> {
    match o {
        Some(s) => s@,
        None => Seq::empty(),
    }
}

/// Nothing was captured (the role and the details do not count).
pub open spec fn context_empty(c: VoiceScreenContext) -> bool {
    &&& opt_blank(c.app_name)
    &&& opt_blank(c.window_title)
    &&& is_blank(c.focused_before@)
    &&& is_blank(c.focused_selection@)
    &&& is_blank(c.focused_after@)
    &&& is_blank(c.visible_text@)
    &&& is_blank(c.ocr_text@)
}

impl Default for VoiceScreenContext {
    fn default() -> (r: Self)
        ensures
            r.app_name is None,
            r.window_title is None,
            r.element_role is None,
            r.focused_before@ == Seq::<char>::empty(),
            r.focused_selection@ == Seq::<char>::empty(),
            r.focused_after@ == Seq::<char>::empty(),
            r.visible_text@ == Seq::<char>::empty(),
            r.ocr_text@ == Seq::<char>::empty(),
            r.details@ == Seq::<String>::empty(),
    {
        VoiceScreenContext {
            app_name: None,
            window_title: None,
            element_role: None,
            focused_before: String::new(),
            focused_selection: String::new(),
            focused_after: String::new(),
            visible_text: String::new(),
            ocr_text: String::new(),
            details: Vec::new(),
        }
    }
}

impl VoiceScreenContext {
    /// Nothing was captured.
    pub fn is_empty(&self) -> (r: bool)
        ensures
            r == context_empty(*self),
    {
        option_text_is_empty(&self.app_name) && option_text_is_empty(&self.window_title)
            && is_blank_str(self.focused_before.as_str()) && is_blank_str(
            self.focused_selection.as_str(),
        ) && is_blank_str(self.focused_after.as_str()) && is_blank_str(self.visible_text.as_str())
            && is_blank_str(self.ocr_text.as_str())
    }

    /// Adds what OCR read: the app and window names where none were known,
    /// the text (at most `SCREEN_CONTEXT_OCR_MAX_CHARS` characters) and the details.
    pub fn merge_ocr(&mut self, ocr: VoiceScreenContextOcr)
        ensures
            final(self).app_name == (if opt_blank(old(self).app_name) {
                ocr.app_name
            } else {
                old(self).app_name
            }),
            final(self).window_title == (if opt_blank(old(self).window_title) {
                ocr.window_title
            } else {
                old(self).window_title
            }),
            final(self).ocr_text@ == clamped(ocr.text@, SCREEN_CONTEXT_OCR_MAX_CHARS as nat),
            final(self).details@ == old(self).details@ + ocr.details@,
            final(self).element_role == old(self).element_role,
            final(self).focused_before == old(self).focused_before,
            final(self).focused_selection == old(self).focused_selection,
            final(self).focused_after == old(self).focused_after,
            final(self).visible_text == old(self).visible_text,
    {
        let mut ocr = ocr;
        if option_text_is_empty(&self.app_name) {
            self.app_name = ocr.app_name;
        }
        if option_text_is_empty(&self.window_title) {
            self.window_title = ocr.window_title;
        }
        self.ocr_text = clamp_chars(ocr.text.as_str(), SCREEN_CONTEXT_OCR_MAX_CHARS);
        self.details.append(&mut ocr.details);
    }
}

/// The texts hint terms are taken from, in order.
pub open spec fn context_texts(c: VoiceScreenContext) -> Seq<Seq<char>> {
    seq![
        opt_text(c.app_name),
        opt_text(c.window_title),
        c.focused_before@,
        c.focused_selection@,
        c.focused_after@,
        c.visible_text@,
        c.ocr_text@,
    ]
}

pub open spec fn extract_all(out: Seq<Seq<char>>, texts: Seq<Seq<char>>) -> Seq<Seq<char>>
    decreases texts.len(),
{
    if texts.len() == 0 {
        out
    } else {
        extract_terms(extract_all(out, texts.drop_last()), texts.last())
    }
}

/// The hint terms of the screen context, first seen first.
pub open spec fn terms_of(c: VoiceScreenContext) -> Seq<Seq<char>> {
    extract_all(Seq::empty(), context_texts(c))
}

fn opt_str(o: &Option<String>) -> (r: &str)
    ensures
        r@ == opt_text(*o),
{
    match o {
        Some(s) => s.as_str(),
        None => {
            proof {
                reveal_strlit("");
            }
            ""
        },
    }
}

/// Words and names on screen worth offering to speech recognition: runs of
/// letters, digits, kana, ideographs and code symbols, 2 to 48 characters,
/// not only digits, each once ignoring case, at most `SCREEN_CONTEXT_ASR_MAX_TERMS`.
pub fn screen_context_terms(screen_context: &VoiceScreenContext) -> (r: Vec<String>)
    ensures
        sviews(r@) == terms_of(*screen_context),
{
    let mut out: Vec<String> = Vec::new();
    let mut keys: Vec<String> = Vec::new();
    let ghost texts = context_texts(*screen_context);
    assert(sviews(out@) =~= Seq::<Seq<char>>::empty());
    assert(sviews(keys@) =~= term_keys(sviews(out@)));
    assert(texts.take(0) =~= Seq::<Seq<char>>::empty());
    assert(extract_all(Seq::empty(), texts.take(0)) == Seq::<Seq<char>>::empty());
    let app = opt_str(&screen_context.app_name);
    extract_screen_context_terms(app, &mut out, &mut keys);
    assert(texts.take(1).drop_last() =~= texts.take(0));
    assert(sviews(out@) == extract_all(Seq::empty(), texts.take(1)));
    let title = opt_str(&screen_context.window_title);
    extract_screen_context_terms(title, &mut out, &mut keys);
    assert(texts.take(2).drop_last() =~= texts.take(1));
    assert(sviews(out@) == extract_all(Seq::empty(), texts.take(2)));
    extract_screen_context_terms(screen_context.focused_before.as_str(), &mut out, &mut keys);
    assert(texts.take(3).drop_last() =~= texts.take(2));
    assert(sviews(out@) == extract_all(Seq::empty(), texts.take(3)));
    extract_screen_context_terms(screen_context.focused_selection.as_str(), &mut out, &mut keys);
    assert(texts.take(4).drop_last() =~= texts.take(3));
    assert(sviews(out@) == extract_all(Seq::empty(), texts.take(4)));
    extract_screen_context_terms(screen_context.focused_after.as_str(), &mut out, &mut keys);
    assert(texts.take(5).drop_last() =~= texts.take(4));
    assert(sviews(out@) == extract_all(Seq::empty(), texts.take(5)));
    extract_screen_context_terms(screen_context.visible_text.as_str(), &mut out, &mut keys);
    assert(texts.take(6).drop_last() =~= texts.take(5));
    assert(sviews(out@) == extract_all(Seq::empty(), texts.take(6)));
    extract_screen_context_terms(screen_context.ocr_text.as_str(), &mut out, &mut keys);
    assert(texts.take(7).drop_last() =~= texts.take(6));
    assert(sviews(out@) == extract_all(Seq::empty(), texts.take(7)));
    assert(texts.take(7) =~= texts);
    out
}

// --- Hints for speech recognition -------------------------------------------

/// Takes one phrase, trimmed, unless the list is full, it is empty, or it is
/// there already ignoring case.
pub open spec fn push_phrase(acc: Seq<Seq<char>>, v: Seq<char>, limit: nat) -> Seq<Seq<char>> {
    let t = trim(v);
    if acc.len() >= limit || t.len() == 0 || term_keys(acc).contains(lowercase_of(t)) {
        acc
    } else {
        acc.push(t)
    }
}

pub open spec fn push_phrases(acc: Seq<Seq<char>>, vs: Seq<Seq<char>>, limit: nat) -> Seq<Seq<char>>
    decreases vs.len(),
{
    if vs.len() == 0 {
        acc
    } else {
        push_phrase(push_phrases(acc, vs.drop_last(), limit), vs.last(), limit)
    }
}

/// The dictionary's phrases, then the screen's terms, each once ignoring
/// case, at most `limit` of them.
pub open spec fn contextual_phrases(
    entries: Seq<crate::dictionary::EntryView>,
    c: VoiceScreenContext,
    limit: nat,
) -> Seq<Seq<char>> {
    push_phrases(Seq::empty(), enabled_phrase_list(entries) + terms_of(c), limit)
}

pub fn transcription_contextual_phrases(
    entries: &Vec<DictionaryEntry>,
    screen_context: &VoiceScreenContext,
    limit: usize,
) -> (r: Vec<String>)
    ensures
        sviews(r@) == contextual_phrases(eviews(entries@), *screen_context, limit as nat),
{
    let mut candidates = enabled_phrases(entries);
    let mut terms = screen_context_terms(screen_context);
    let ghost a = sviews(candidates@);
    let ghost b = sviews(terms@);
    candidates.append(&mut terms);
    let ghost all = sviews(candidates@);
    assert(all =~= a + b);
    let mut values: Vec<String> = Vec::new();
    let mut keys: Vec<String> = Vec::new();
    let mut i: usize = 0;
    assert(all.take(0) =~= Seq::<Seq<char>>::empty());
    assert(sviews(keys@) =~= term_keys(sviews(values@)));
    while i < candidates.len()
        invariant
            0 <= i <= candidates.len(),
            all == sviews(candidates@),
            keyed(values@, keys@),
            sviews(values@) == push_phrases(Seq::empty(), all.take(i as int), limit as nat),
        decreases candidates.len() - i,
    {
        assert(all.take(i + 1).drop_last() =~= all.take(i as int));
        let ghost acc = sviews(values@);
        if values.len() < limit {
            let v = chars_of(candidates[i].as_str());
            let tv = trim_chars(&v);
            if tv.len() > 0 {
                let s = string_from_chars(&tv);
                let key = lowercase(s.as_str());
                if !contains_key(&keys, &key) {
                    let ghost k = sviews(keys@);
                    values.push(s);
                    keys.push(key);
                    assert(sviews(values@) =~= acc.push(tv@));
                    assert(sviews(keys@) =~= k.push(lowercase_of(tv@)));
                    assert(term_keys(sviews(values@)) =~= term_keys(acc).push(lowercase_of(tv@)));
                }
            }
        }
        i = i + 1;
    }
    assert(all.take(candidates.len() as int) =~= all);
    values
}

pub open spec fn hint_header() -> Seq<char> {
    "画面文脈から抽出したヒント語（聞こえた場合だけ使用）:\n"@
}

pub open spec fn bullet(t: Seq<char>) -> Seq<char> {
    "- "@ + t
}

/// The prompt context for transcription: the dictionary's lines, then the
/// screen's hint terms as a bulleted list.
pub open spec fn prompt_context(entries: Seq<crate::dictionary::EntryView>, c: VoiceScreenContext) -> Seq<
    char,
> {
    let dict = prompt_text(entries);
    let terms = terms_of(c);
    let s1: Seq<Seq<char>> = if is_blank(dict) {
        Seq::empty()
    } else {
        seq![dict]
    };
    let s2 = if terms.len() == 0 {
        s1
    } else {
        s1.push(hint_header() + join(terms.map_values(|t: Seq<char>| bullet(t)), seq!['\n']))
    };
    join(s2, seq!['\n'])
}

pub fn transcription_prompt_context(entries: &Vec<DictionaryEntry>, screen_context: &VoiceScreenContext) -> (r:
    String)
    ensures
        r@ == prompt_context(eviews(entries@), *screen_context),
{
    let mut sections: Vec<Vec<char>> = Vec::new();
    let dictionary_context = prompt_lines(entries);
    if !is_blank_str(dictionary_context.as_str()) {
        sections.push(chars_of(dictionary_context.as_str()));
    }
    assert(vviews(sections@) =~= (if is_blank(dictionary_context@) {
        Seq::<Seq<char>>::empty()
    } else {
        seq![dictionary_context@]
    }));
    let terms = screen_context_terms(screen_context);
    if terms.len() > 0 {
        let ghost ts = sviews(terms@);
        let mut bullets: Vec<Vec<char>> = Vec::new();
        let mut i: usize = 0;
        while i < terms.len()
            invariant
                0 <= i <= terms.len(),
                ts == sviews(terms@),
                vviews(bullets@) == ts.take(i as int).map_values(|t: Seq<char>| bullet(t)),
            decreases terms.len() - i,
        {
            let mut b: Vec<char> = Vec::new();
            append_str_chars(&mut b, "- ");
            append_str_chars(&mut b, terms[i].as_str());
            let ghost before = vviews(bullets@);
            bullets.push(b);
            assert(vviews(bullets@) =~= before.push(bullet(ts[i as int])));
            assert(ts.take(i + 1).map_values(|t: Seq<char>| bullet(t)) =~= ts.take(
                i as int,
            ).map_values(|t: Seq<char>| bullet(t)).push(bullet(ts[i as int])));
            i = i + 1;
        }
        assert(ts.take(terms.len() as int) =~= ts);
        let sep = vec!['\n'];
        assert(sep@ =~= seq!['\n']);
        let mut section: Vec<char> = Vec::new();
        append_str_chars(&mut section, "画面文脈から抽出したヒント語（聞こえた場合だけ使用）:\n");
        let list = join_chars(&bullets, &sep);
        append_chars(&mut section, &list);
        let ghost before = vviews(sections@);
        sections.push(section);
        assert(vviews(sections@) =~= before.push(section@));
    }
    let sep = vec!['\n'];
    assert(sep@ =~= seq!['\n']);
    string_from_chars(&join_chars(&sections, &sep))
}

// --- The section for the finalizing model -----------------------------------

/// A labelled line for a name that is present and not blank.
pub open spec fn name_line(label: Seq<char>, o: Option<String>) -> Seq<Seq<char>> {
    match o {
        Some(s) => if is_blank(s@) {
            Seq::empty()
        } else {
            seq![label + collapse_ws(s@)]
        },
        None => Seq::empty(),
    }
}

/// A labelled block for a text that has any non-blank line.
pub open spec fn block_line(label: Seq<char>, v: Seq<char>, max: nat) -> Seq<Seq<char>> {
    let n = normalized_block(v);
    if n.len() == 0 {
        Seq::empty()
    } else {
        seq![label + ":\n"@ + clamped(n, max)]
    }
}

pub open spec fn section_lines(c: VoiceScreenContext) -> Seq<Seq<char>> {
    name_line("アプリ: "@, c.app_name) + name_line("ウィンドウ: "@, c.window_title) + name_line(
        "入力先: "@,
        c.element_role,
    ) + block_line("カーソル前"@, c.focused_before@, SCREEN_CONTEXT_SIDE_CHARS as nat) + block_line(
        "選択中"@,
        c.focused_selection@,
        SCREEN_CONTEXT_SIDE_CHARS as nat,
    ) + block_line("カーソル後"@, c.focused_after@, SCREEN_CONTEXT_SIDE_CHARS as nat) + block_line(
        "表示テキスト"@,
        c.visible_text@,
        SCREEN_CONTEXT_VISIBLE_MAX_CHARS as nat,
    ) + block_line("OCRテキスト"@, c.ocr_text@, SCREEN_CONTEXT_OCR_MAX_CHARS as nat)
}

pub open spec fn section_header() -> Seq<char> {
    "画面文脈（貼り付け先と周辺表示。音声と矛盾する内容は使わない）:\n"@
}

/// The labelled screen-context section, or nothing when nothing was captured.
pub open spec fn finalization_section(c: VoiceScreenContext) -> Seq<char> {
    if context_empty(c) || section_lines(c).len() == 0 {
        Seq::empty()
    } else {
        section_header() + join(section_lines(c), seq!['\n'])
    }
}

fn push_name_line(lines: &mut Vec<Vec<char>>, label: &str, value: &Option<String>)
    ensures
        vviews(final(lines)@) == vviews(old(lines)@) + name_line(label@, *value),
{
    match value {
        Some(s) => {
            if !is_blank_str(s.as_str()) {
                let mut line = chars_of(label);
                let n = collapse_ws_chars(&chars_of(s.as_str()));
                append_chars(&mut line, &n);
                let ghost before = vviews(lines@);
                lines.push(line);
                assert(vviews(lines@) =~= before + seq![label@ + collapse_ws(s@)]);
            } else {
                assert(vviews(lines@) =~= vviews(lines@) + Seq::<Seq<char>>::empty());
            }
        },
        None => {
            assert(vviews(lines@) =~= vviews(lines@) + Seq::<Seq<char>>::empty());
        },
    }
}

fn push_context_block(lines: &mut Vec<Vec<char>>, label: &str, value: &str, max_chars: usize)
    ensures
        vviews(final(lines)@) == vviews(old(lines)@) + block_line(label@, value@, max_chars as nat),
{
    let n = normalize_context_block(value);
    if n.as_str().unicode_len() == 0 {
        assert(vviews(lines@) =~= vviews(lines@) + Seq::<Seq<char>>::empty());
        return ;
    }
    let mut line = chars_of(label);
    append_str_chars(&mut line, ":\n");
    let body = clamp_chars(n.as_str(), max_chars);
    append_str_chars(&mut line, body.as_str());
    let ghost before = vviews(lines@);
    lines.push(line);
    assert(vviews(lines@) =~= before + block_line(label@, value@, max_chars as nat));
}

/// The screen context as a labelled section of the finalizing prompt.
pub fn finalization_screen_context_section(screen_context: &VoiceScreenContext) -> (r: String)
    ensures
        r@ == finalization_section(*screen_context),
{
    if screen_context.is_empty() {
        return String::new();
    }
    let mut lines: Vec<Vec<char>> = Vec::new();
    assert(vviews(lines@) =~= Seq::<Seq<char>>::empty());
    push_name_line(&mut lines, "アプリ: ", &screen_context.app_name);
    push_name_line(&mut lines, "ウィンドウ: ", &screen_context.window_title);
    push_name_line(&mut lines, "入力先: ", &screen_context.element_role);
    push_context_block(
        &mut lines,
        "カーソル前",
        screen_context.focused_before.as_str(),
        SCREEN_CONTEXT_SIDE_CHARS,
    );
    push_context_block(
        &mut lines,
        "選択中",
        screen_context.focused_selection.as_str(),
        SCREEN_CONTEXT_SIDE_CHARS,
    );
    push_context_block(
        &mut lines,
        "カーソル後",
        screen_context.focused_after.as_str(),
        SCREEN_CONTEXT_SIDE_CHARS,
    );
    push_context_block(
        &mut lines,
        "表示テキスト",
        screen_context.visible_text.as_str(),
        SCREEN_CONTEXT_VISIBLE_MAX_CHARS,
    );
    push_context_block(
        &mut lines,
        "OCRテキスト",
        screen_context.ocr_text.as_str(),
        SCREEN_CONTEXT_OCR_MAX_CHARS,
    );
    assert(vviews(lines@) =~= section_lines(*screen_context));
    if lines.len() == 0 {
        return String::new();
    }
    let mut out = chars_of("画面文脈（貼り付け先と周辺表示。音声と矛盾する内容は使わない）:\n");
    let sep = vec!['\n'];
    assert(sep@ =~= seq!['\n']);
    let body = join_chars(&lines, &sep);
    append_chars(&mut out, &body);
    string_from_chars(&out)
}

// --- Pieces of the capture ----------------------------------------------------

/// The paste target's role and (when different) subrole, as "role / subrole".
pub open spec fn role_label(role: Seq<char>, subrole: Seq<char>) -> Option<Seq<char>> {
    let r: Seq<Seq<char>> = if trim(role).len() > 0 {
        seq![trim(role)]
    } else {
        Seq::empty()
    };
    let parts = if trim(subrole).len() > 0 && trim(subrole) != trim(role) {
        r.push(trim(subrole))
    } else {
        r
    };
    if parts.len() == 0 {
        None
    } else {
        Some(join(parts, " / "@))
    }
}

pub fn paste_target_role_label(target: &PasteTargetInfo) -> (r: Option<String>)
    ensures
        match role_label(target.role@, target.subrole@) {
            Some(l) => r matches Some(x) && x@ == l,
            None => r is None,
        },
{
    let role = trim_chars(&chars_of(target.role.as_str()));
    let subrole = trim_chars(&chars_of(target.subrole.as_str()));
    let mut parts: Vec<Vec<char>> = Vec::new();
    if role.len() > 0 {
        parts.push(role.clone());
    }
    assert(vviews(parts@) =~= (if role@.len() > 0 {
        seq![role@]
    } else {
        Seq::<Seq<char>>::empty()
    }));
    if subrole.len() > 0 && !crate::text::chars_eq(&subrole, &role) {
        let ghost before = vviews(parts@);
        parts.push(subrole);
        assert(vviews(parts@) =~= before.push(trim(target.subrole@)));
    }
    if parts.len() == 0 {
        return None;
    }
    let sep = chars_of(" / ");
    Some(string_from_chars(&join_chars(&parts, &sep)))
}

/// The text before the selection (its last `SCREEN_CONTEXT_SIDE_CHARS`
/// characters), the selection and the text after it (their first ones). An
/// offset that is no character boundary puts the selection start at 0 and its
/// end at the start.
pub open spec fn focused_parts(s: Seq<char>, r: TextRange) -> (Seq<char>, Seq<char>, Seq<char>) {
    let start = match char_index_at_utf16(s, r.location as int) {
        Some(i) => i,
        None => 0,
    };
    let end = match char_index_at_utf16(s, range_end(r)) {
        Some(j) => j,
        None => start,
    };
    let side = SCREEN_CONTEXT_SIDE_CHARS as nat;
    (
        clamped_from_end(s.take(start), side),
        if end > start {
            clamped(s.subrange(start, end), side)
        } else {
            Seq::empty()
        },
        if end < s.len() {
            clamped(s.skip(end), side)
        } else {
            Seq::empty()
        },
    )
}

pub fn focused_text_context(value: &str, selected_range: TextRange) -> (r: (String, String, String))
    ensures
        r.0@ == focused_parts(value@, selected_range).0,
        r.1@ == focused_parts(value@, selected_range).1,
        r.2@ == focused_parts(value@, selected_range).2,
{
    let v = chars_of(value);
    let start = match utf16_offset_to_char_index(&v, selected_range.location) {
        Some(i) => i,
        None => 0,
    };
    let end = match utf16_offset_to_char_index(&v, selected_range.end()) {
        Some(j) => j,
        None => start,
    };
    proof {
        crate::text_diff::lemma_char_index_at_utf16(v@, selected_range.location as int, 0, 0);
        crate::text_diff::lemma_char_index_at_utf16(v@, range_end(selected_range), 0, 0);
        assert(v@.subrange(0, 0) =~= Seq::<char>::empty());
    }
    let head = string_from_range(&v, 0, start);
    assert(v@.subrange(0, start as int) =~= v@.take(start as int));
    let before = clamp_chars_from_end(head.as_str(), SCREEN_CONTEXT_SIDE_CHARS);
    let selection = if end > start {
        let mid = string_from_range(&v, start, end);
        clamp_chars(mid.as_str(), SCREEN_CONTEXT_SIDE_CHARS)
    } else {
        String::new()
    };
    let after = if end < v.len() {
        let tail = string_from_range(&v, end, v.len());
        assert(v@.subrange(end as int, v.len() as int) =~= v@.skip(end as int));
        clamp_chars(tail.as_str(), SCREEN_CONTEXT_SIDE_CHARS)
    } else {
        String::new()
    };
    (before, selection, after)
}

/// Password fields, whose text is never read.
pub open spec fn sensitive_role(role: Seq<char>) -> bool {
    role == "AXSecureTextField"@
}

pub fn is_sensitive_ax_role(role: &str) -> (r: bool)
    ensures
        r == sensitive_role(role@),
{
    str_eq(role, "AXSecureTextField")
}

// --- When to run OCR ------------------------------------------------------------

/// Every speech profile takes screen-context hints.
pub open spec fn accepts_hints(profile: SpeechProfile) -> bool {
    true
}

pub fn speech_profile_accepts_screen_context_hints(profile: SpeechProfile) -> (r: bool)
    ensures
        r == accepts_hints(profile),
{
    match profile {
        SpeechProfile::GoogleChirp3 => true,
        SpeechProfile::OpenAiGpt4oTranscribe => true,
        SpeechProfile::OpenAiGpt4oMiniTranscribe => true,
        SpeechProfile::GeminiAudio => true,
        SpeechProfile::AppleSpeechAnalyzer => true,
    }
}

/// OCR of the screen is worth starting: screen context and OCR are on, and
/// the session either is a question, formats its text, or transcribes in
/// batch with a profile that takes hints.
pub open spec fn capture_ocr(settings: AppSettings, mode: VoiceMode, id: Seq<char>) -> bool {
    if !settings.voice.screen_context_enabled || !settings.voice.screen_context_ocr_enabled {
        false
    } else {
        match mode {
            VoiceMode::Ask => true,
            VoiceMode::Dictation => {
                let formatting = match profile_or_default_index(
                    pviews(settings.voice.mode_profiles@),
                    id,
                ) {
                    Some(k) => pviews(settings.voice.mode_profiles@)[k].formatting_enabled,
                    None => true,
                };
                formatting || (live_provider_for(settings, mode, id) is None && accepts_hints(
                    settings.voice.speech_profile,
                ))
            },
        }
    }
}

pub fn should_capture_voice_screen_context_ocr(
    settings: &AppSettings,
    mode: VoiceMode,
    mode_profile_id: &str,
) -> (r: bool)
    ensures
        r == capture_ocr(*settings, mode, mode_profile_id@),
{
    if !settings.voice.screen_context_enabled || !settings.voice.screen_context_ocr_enabled {
        return false;
    }
    match mode {
        VoiceMode::Ask => true,
        VoiceMode::Dictation => {
            let formatting_enabled = match settings.voice.mode_profile_or_default(mode_profile_id) {
                Some(p) => p.formatting_enabled,
                None => true,
            };
            if formatting_enabled {
                return true;
            }
            !should_use_live_transcript(settings, mode, mode_profile_id)
                && speech_profile_accepts_screen_context_hints(settings.voice.speech_profile)
        },
    }
}

// --- Laws -----------------------------------------------------------------------

/// Hint terms as `screen_context_terms` promises them: at most
/// `SCREEN_CONTEXT_ASR_MAX_TERMS`, each 2 to 48 characters, not only digits,
/// and no two the same ignoring case.
pub open spec fn terms_well_formed(out: Seq<Seq<char>>) -> bool {
    &&& out.len() <= SCREEN_CONTEXT_ASR_MAX_TERMS
    &&& forall|i: int|
        0 <= i < out.len() ==> 2 <= (#[trigger] out[i]).len() <= SCREEN_CONTEXT_ASR_MAX_TERM_CHARS
            && !all_digits(out[i])
    &&& term_keys(out).no_duplicates()
}

pub proof fn lemma_push_term_well_formed(out: Seq<Seq<char>>, raw: Seq<char>)
    requires
        terms_well_formed(out),
    ensures
        terms_well_formed(push_term(out, raw)),
{
    let v = term_value(raw);
    if !(out.len() >= SCREEN_CONTEXT_ASR_MAX_TERMS || v.len() < 2 || v.len()
        > SCREEN_CONTEXT_ASR_MAX_TERM_CHARS || all_digits(v) || term_keys(out).contains(
        lowercase_of(v),
    )) {
        let n = out.push(v);
        assert(term_keys(n) =~= term_keys(out).push(lowercase_of(v)));
        assert forall|i: int, j: int|
            0 <= i < term_keys(n).len() && 0 <= j < term_keys(n).len() && i != j implies term_keys(
            n,
        )[i] != term_keys(n)[j] by {
            if i < out.len() && j < out.len() {
                assert(term_keys(out)[i] != term_keys(out)[j]);
            } else if i == out.len() {
                assert(term_keys(out)[j] == term_keys(n)[j]);
            } else {
                assert(term_keys(out)[i] == term_keys(n)[i]);
            }
        }
    }
}

pub proof fn lemma_push_terms_well_formed(out: Seq<Seq<char>>, raws: Seq<Seq<char>>)
    requires
        terms_well_formed(out),
    ensures
        terms_well_formed(push_terms(out, raws)),
    decreases raws.len(),
{
    if raws.len() > 0 {
        lemma_push_terms_well_formed(out, raws.drop_last());
        lemma_push_term_well_formed(push_terms(out, raws.drop_last()), raws.last());
    }
}

pub proof fn lemma_extract_all_well_formed(out: Seq<Seq<char>>, texts: Seq<Seq<char>>)
    requires
        terms_well_formed(out),
    ensures
        terms_well_formed(extract_all(out, texts)),
    decreases texts.len(),
{
    if texts.len() > 0 {
        lemma_extract_all_well_formed(out, texts.drop_last());
        lemma_push_terms_well_formed(
            extract_all(out, texts.drop_last()),
            term_pieces(texts.last()),
        );
    }
}

/// Whatever the screen showed, its hint terms are at most
/// `SCREEN_CONTEXT_ASR_MAX_TERMS`, each 2 to 48 characters and not only
/// digits, and no two are the same ignoring case.
pub proof fn lemma_screen_terms_well_formed(c: VoiceScreenContext)
    ensures
        terms_well_formed(terms_of(c)),
{
    assert(term_keys(Seq::<Seq<char>>::empty()) =~= Seq::<Seq<char>>::empty());
    lemma_extract_all_well_formed(Seq::empty(), context_texts(c));
}

/// Phrases as `transcription_contextual_phrases` promises them: at most
/// `limit`, each trimmed and non-empty, no two the same ignoring case.
pub open spec fn phrases_well_formed(acc: Seq<Seq<char>>, limit: nat) -> bool {
    &&& acc.len() <= limit
    &&& forall|i: int| 0 <= i < acc.len() ==> (#[trigger] acc[i]).len() > 0
    &&& term_keys(acc).no_duplicates()
}

pub proof fn lemma_push_phrases_well_formed(acc: Seq<Seq<char>>, vs: Seq<Seq<char>>, limit: nat)
    requires
        phrases_well_formed(acc, limit),
    ensures
        phrases_well_formed(push_phrases(acc, vs, limit), limit),
    decreases vs.len(),
{
    if vs.len() > 0 {
        lemma_push_phrases_well_formed(acc, vs.drop_last(), limit);
        let a = push_phrases(acc, vs.drop_last(), limit);
        let t = trim(vs.last());
        if !(a.len() >= limit || t.len() == 0 || term_keys(a).contains(lowercase_of(t))) {
            let n = a.push(t);
            assert(term_keys(n) =~= term_keys(a).push(lowercase_of(t)));
            assert forall|i: int, j: int|
                0 <= i < term_keys(n).len() && 0 <= j < term_keys(n).len() && i != j implies term_keys(
                n,
            )[i] != term_keys(n)[j] by {
                if i < a.len() && j < a.len() {
                    assert(term_keys(a)[i] != term_keys(a)[j]);
                } else if i == a.len() {
                    assert(term_keys(a)[j] == term_keys(n)[j]);
                } else {
                    assert(term_keys(a)[i] == term_keys(n)[i]);
                }
            }
        }
    }
}

/// The contextual phrases are at most `limit`, non-empty, and no two are the
/// same ignoring case.
pub proof fn lemma_contextual_phrases_well_formed(
    entries: Seq<crate::dictionary::EntryView>,
    c: VoiceScreenContext,
    limit: nat,
)
    ensures
        phrases_well_formed(contextual_phrases(entries, c, limit), limit),
{
    assert(term_keys(Seq::<Seq<char>>::empty()) =~= Seq::<Seq<char>>::empty());
    lemma_push_phrases_well_formed(Seq::empty(), enabled_phrase_list(entries) + terms_of(c), limit);
}

} // verus!
