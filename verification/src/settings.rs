//! Application settings: the data model, its defaults, and the rules that
//! clean up and check values read back from disk.
use vstd::prelude::*;

use crate::text::{
    append_chars, ascii_lower_seq, ascii_upper_seq, chars_eq, chars_of, contains, contains_chars,
    decimal, is_blank, is_blank_str, join, join_chars, owned, push_decimal, split_whitespace,
    string_from_chars, trim, trim_chars, trim_str, vviews, words,
};

verus! {

#[derive(Debug, Clone, Copy, PartialEq, Eq, Structural)]
pub enum UiLanguage {
    En,
    Ja,
}

impl UiLanguage {
    /// The other of the two languages.
    pub fn other(self) -> (r: Self)
        ensures
            r != self,
            r == (if self == UiLanguage::En {
                UiLanguage::Ja
            } else {
                UiLanguage::En
            }),
    {
        match self {
            UiLanguage::En => UiLanguage::Ja,
            UiLanguage::Ja => UiLanguage::En,
        }
    }
}

impl Default for UiLanguage {
    fn default() -> (r: Self)
        ensures
            r == UiLanguage::En,
    {
        UiLanguage::En
    }
}

#[derive(Debug, Clone, Copy, PartialEq, Eq, Structural)]
pub enum SpeechProfile {
    GoogleChirp3,
    OpenAiGpt4oTranscribe,
    OpenAiGpt4oMiniTranscribe,
    GeminiAudio,
    AppleSpeechAnalyzer,
}

impl Default for SpeechProfile {
    fn default() -> (r: Self)
        ensures
            r == SpeechProfile::GoogleChirp3,
    {
        SpeechProfile::GoogleChirp3
    }
}

#[derive(Debug, Clone, Copy, PartialEq, Eq, Structural)]
pub enum FinalizationModel {
    Gemini31ProPreview,
    Gemini35Flash,
    Gemini31FlashLite,
}

pub open spec fn model_id_text(m: FinalizationModel) -> Seq<char> {
    match m {
        FinalizationModel::Gemini31ProPreview => "gemini-3.1-pro-preview"@,
        FinalizationModel::Gemini35Flash => "gemini-3.5-flash"@,
        FinalizationModel::Gemini31FlashLite => "gemini-3.1-flash-lite"@,
    }
}

pub open spec fn thinking_level_text(m: FinalizationModel) -> Seq<char> {
    match m {
        FinalizationModel::Gemini31ProPreview => "low"@,
        _ => "minimal"@,
    }
}

impl FinalizationModel {
    /// The Gemini model that finalizes a transcript.
    pub fn model_id(self) -> (r: &'static str)
        ensures
            r@ == model_id_text(self),
    {
        match self {
            FinalizationModel::Gemini31ProPreview => "gemini-3.1-pro-preview",
            FinalizationModel::Gemini35Flash => "gemini-3.5-flash",
            FinalizationModel::Gemini31FlashLite => "gemini-3.1-flash-lite",
        }
    }

    /// The thinking level requested from that model.
    pub fn thinking_level(self) -> (r: &'static str)
        ensures
            r@ == thinking_level_text(self),
    {
        match self {
            FinalizationModel::Gemini31ProPreview => "low",
            FinalizationModel::Gemini35Flash | FinalizationModel::Gemini31FlashLite => "minimal",
        }
    }
}

impl Default for FinalizationModel {
    fn default() -> (r: Self)
        ensures
            r == FinalizationModel::Gemini35Flash,
    {
        FinalizationModel::Gemini35Flash
    }
}

#[derive(Debug, Clone, Copy, PartialEq, Eq, Structural)]
pub enum ShortcutAction {
    VoiceDictation,
    VoiceAsk,
    PolishSelection,
}

#[derive(Debug, Clone, Copy, PartialEq, Eq, Structural, Default)]
pub struct ShortcutModifiers {
    pub command: bool,
    pub option: bool,
    pub control: bool,
    pub shift: bool,
    pub function: bool,
}

/// No modifier held.
pub open spec fn no_modifiers() -> ShortcutModifiers {
    ShortcutModifiers { command: false, option: false, control: false, shift: false, function: false }
}

pub fn modifiers_none() -> (r: ShortcutModifiers)
    ensures
        r == no_modifiers(),
{
    ShortcutModifiers { command: false, option: false, control: false, shift: false, function: false }
}

#[derive(Debug, Clone, PartialEq, Eq)]
pub struct ShortcutBinding {
    pub key_code: Option<i64>,
    pub key: String,
    pub label: String,
    pub modifiers: ShortcutModifiers,
}

/// The mathematical value of a shortcut binding.
pub ghost struct BindingView {
    pub key_code: Option<i64>,
    pub key: Seq<char>,
    pub label: Seq<char>,
    pub modifiers: ShortcutModifiers,
}

impl View for ShortcutBinding {
    type V = BindingView;

    open spec fn view(&self) -> BindingView {
        BindingView {
            key_code: self.key_code,
            key: self.key@,
            label: self.label@,
            modifiers: self.modifiers,
        }
    }
}

/// A word that names a modifier key, in any ASCII case.
pub open spec fn is_modifier_word(w: Seq<char>) -> bool {
    let l = ascii_lower_seq(w);
    l == "ctrl"@ || l == "control"@ || l == "option"@ || l == "alt"@ || l == "shift"@ || l
        == "cmd"@ || l == "command"@ || l == "fn"@
}

/// The index of the first word at or after `i` that is not a modifier name.
pub open spec fn skip_modifier_words(ws: Seq<Seq<char>>, i: int) -> int
    decreases ws.len() - i,
{
    if 0 <= i < ws.len() && is_modifier_word(ws[i]) {
        skip_modifier_words(ws, i + 1)
    } else {
        i
    }
}

/// The label shown for a key when the stored label carries nothing but modifiers.
pub open spec fn fallback_key_label(key: Seq<char>) -> Seq<char> {
    if key == "space"@ {
        "Space"@
    } else if key == "return"@ {
        "Return"@
    } else if key == "tab"@ {
        "Tab"@
    } else if key == "escape"@ {
        "Escape"@
    } else if key == "delete"@ {
        "Delete"@
    } else if key.len() == 1 && (key[0] as u32) < 128 {
        ascii_upper_seq(key)
    } else {
        key
    }
}

/// The key part of a label: its words after the leading modifier names.
pub open spec fn shortcut_base_label(label: Seq<char>, key: Seq<char>) -> Seq<char> {
    let ws = words(label);
    let stripped = join(ws.subrange(skip_modifier_words(ws, 0), ws.len() as int), seq![' ']);
    if is_blank(stripped) {
        fallback_key_label(key)
    } else {
        stripped
    }
}

pub open spec fn opt_word(b: bool, w: Seq<char>) -> Seq<Seq<char>> {
    if b {
        seq![w]
    } else {
        Seq::empty()
    }
}

/// The words of a shortcut label: the modifiers in a fixed order, then the key.
pub open spec fn shortcut_label_parts(m: ShortcutModifiers, base: Seq<char>) -> Seq<Seq<char>> {
    opt_word(m.control, "Ctrl"@) + opt_word(m.option, "Option"@) + opt_word(m.shift, "Shift"@)
        + opt_word(m.command, "Cmd"@) + opt_word(m.function, "Fn"@) + opt_word(
        !is_blank(base),
        trim(base),
    )
}

pub open spec fn format_shortcut_label(m: ShortcutModifiers, base: Seq<char>) -> Seq<char> {
    join(shortcut_label_parts(m, base), seq![' '])
}

/// The stored form of a key name: trimmed and in ASCII lower case.
pub open spec fn normalized_key(key: Seq<char>) -> Seq<char> {
    ascii_lower_seq(trim(key))
}

pub open spec fn is_fn_key_parts(key_code: Option<i64>, key: Seq<char>) -> bool {
    key_code is None && key == "fn"@
}

/// The label that `normalize` gives a binding whose key is already normalized.
pub open spec fn normalized_label(
    key_code: Option<i64>,
    key: Seq<char>,
    label: Seq<char>,
    m: ShortcutModifiers,
) -> Seq<char> {
    if is_fn_key_parts(key_code, key) {
        "Fn"@
    } else {
        format_shortcut_label(m, shortcut_base_label(label, key))
    }
}

/// Two bindings trigger on the same input.
pub open spec fn same_shortcut(a: ShortcutBinding, b: ShortcutBinding) -> bool {
    a.key_code == b.key_code && a.key@ == b.key@ && a.modifiers == b.modifiers
        && is_fn_key_parts(a.key_code, a.key@) == is_fn_key_parts(b.key_code, b.key@)
}

/// An exact copy of a binding.
pub fn clone_binding(b: &ShortcutBinding) -> (r: ShortcutBinding)
    ensures
        r == *b,
{
    ShortcutBinding {
        key_code: b.key_code,
        key: b.key.clone(),
        label: b.label.clone(),
        modifiers: b.modifiers,
    }
}

fn is_modifier_word_exec(w: &Vec<char>) -> (r: bool)
    ensures
        r == is_modifier_word(w@),
{
    let l = lower_chars(w);
    let names = ["ctrl", "control", "option", "alt", "shift", "cmd", "command", "fn"];
    let mut found = false;
    let mut i: usize = 0;
    let ghost lv = ascii_lower_seq(w@);
    while i < 8
        invariant
            0 <= i <= 8,
            l@ == lv,
            names@ == seq!["ctrl", "control", "option", "alt", "shift", "cmd", "command", "fn"],
            found == (exists|k: int| 0 <= k < i && lv == (#[trigger] names@[k])@),
        decreases 8 - i,
    {
        let n = chars_of(names[i]);
        if chars_eq(&l, &n) {
            found = true;
        }
        i = i + 1;
    }
    proof {
        if is_modifier_word(w@) {
            if lv == "ctrl"@ {
                assert(lv == names@[0]@);
            } else if lv == "control"@ {
                assert(lv == names@[1]@);
            } else if lv == "option"@ {
                assert(lv == names@[2]@);
            } else if lv == "alt"@ {
                assert(lv == names@[3]@);
            } else if lv == "shift"@ {
                assert(lv == names@[4]@);
            } else if lv == "cmd"@ {
                assert(lv == names@[5]@);
            } else if lv == "command"@ {
                assert(lv == names@[6]@);
            } else {
                assert(lv == names@[7]@);
            }
        }
    }
    found
}

/// `to_ascii_lowercase` on a character vector.
pub fn lower_chars(v: &Vec<char>) -> (r: Vec<char>)
    ensures
        r@ == ascii_lower_seq(v@),
{
    let mut r: Vec<char> = Vec::new();
    let mut i: usize = 0;
    while i < v.len()
        invariant
            0 <= i <= v.len(),
            r@ == ascii_lower_seq(v@.subrange(0, i as int)),
        decreases v.len() - i,
    {
        r.push(crate::text::char_ascii_lower(v[i]));
        assert(ascii_lower_seq(v@.subrange(0, i + 1)) =~= ascii_lower_seq(
            v@.subrange(0, i as int),
        ).push(crate::text::ascii_lower(v@[i as int])));
        i = i + 1;
    }
    assert(v@.subrange(0, v.len() as int) =~= v@);
    r
}

/// `to_ascii_uppercase` on a character vector.
pub fn upper_chars(v: &Vec<char>) -> (r: Vec<char>)
    ensures
        r@ == ascii_upper_seq(v@),
{
    let mut r: Vec<char> = Vec::new();
    let mut i: usize = 0;
    while i < v.len()
        invariant
            0 <= i <= v.len(),
            r@ == ascii_upper_seq(v@.subrange(0, i as int)),
        decreases v.len() - i,
    {
        r.push(crate::text::char_ascii_upper(v[i]));
        assert(ascii_upper_seq(v@.subrange(0, i + 1)) =~= ascii_upper_seq(
            v@.subrange(0, i as int),
        ).push(crate::text::ascii_upper(v@[i as int])));
        i = i + 1;
    }
    assert(v@.subrange(0, v.len() as int) =~= v@);
    r
}

fn fallback_key_label_exec(key: &Vec<char>) -> (r: Vec<char>)
    ensures
        r@ == fallback_key_label(key@),
{
    if chars_eq(key, &chars_of("space")) {
        chars_of("Space")
    } else if chars_eq(key, &chars_of("return")) {
        chars_of("Return")
    } else if chars_eq(key, &chars_of("tab")) {
        chars_of("Tab")
    } else if chars_eq(key, &chars_of("escape")) {
        chars_of("Escape")
    } else if chars_eq(key, &chars_of("delete")) {
        chars_of("Delete")
    } else if key.len() == 1 && (key[0] as u32) < 128 {
        upper_chars(key)
    } else {
        let mut r = Vec::new();
        append_chars(&mut r, key);
        r
    }
}

fn shortcut_base_label_exec(label: &Vec<char>, key: &Vec<char>) -> (r: Vec<char>)
    ensures
        r@ == shortcut_base_label(label@, key@),
{
    let ws = split_whitespace(label);
    let ghost wv = words(label@);
    let mut k: usize = 0;
    while k < ws.len() && is_modifier_word_exec(&ws[k])
        invariant
            0 <= k <= ws.len(),
            vviews(ws@) == wv,
            skip_modifier_words(wv, k as int) == skip_modifier_words(wv, 0),
        decreases ws.len() - k,
    {
        k = k + 1;
    }
    let mut rest: Vec<Vec<char>> = Vec::new();
    let mut i = k;
    while i < ws.len()
        invariant
            k <= i <= ws.len(),
            vviews(ws@) == wv,
            vviews(rest@) == wv.subrange(k as int, i as int),
        decreases ws.len() - i,
    {
        let mut w = Vec::new();
        append_chars(&mut w, &ws[i]);
        assert(w@ =~= wv[i as int]);
        let ghost old_rest = rest@;
        rest.push(w);
        assert(rest@ =~= old_rest.push(w));
        assert(vviews(rest@) =~= vviews(old_rest).push(w@));
        assert(vviews(rest@) =~= wv.subrange(k as int, i + 1));
        i = i + 1;
    }
    let sep = vec![' '];
    assert(sep@ =~= seq![' ']);
    let stripped = join_chars(&rest, &sep);
    let (lo, hi) = crate::text::trim_bounds(&stripped);
    proof {
        crate::text::lemma_trim_empty_iff_blank(stripped@);
    }
    if lo == hi {
        fallback_key_label_exec(key)
    } else {
        stripped
    }
}

fn push_word_if(parts: &mut Vec<Vec<char>>, b: bool, w: &str)
    ensures
        vviews(final(parts)@) == vviews(old(parts)@) + opt_word(b, w@),
{
    let ghost before = vviews(parts@);
    if b {
        parts.push(chars_of(w));
    }
    assert(vviews(parts@) =~= before + opt_word(b, w@));
}

fn format_shortcut_label_exec(m: ShortcutModifiers, base: &Vec<char>) -> (r: Vec<char>)
    ensures
        r@ == format_shortcut_label(m, base@),
{
    let mut parts: Vec<Vec<char>> = Vec::new();
    assert(vviews(parts@) =~= Seq::<Seq<char>>::empty());
    push_word_if(&mut parts, m.control, "Ctrl");
    push_word_if(&mut parts, m.option, "Option");
    push_word_if(&mut parts, m.shift, "Shift");
    push_word_if(&mut parts, m.command, "Cmd");
    push_word_if(&mut parts, m.function, "Fn");
    let t = trim_chars(base);
    let ghost before = vviews(parts@);
    proof {
        crate::text::lemma_trim_empty_iff_blank(base@);
    }
    if t.len() > 0 {
        parts.push(t);
    }
    assert(vviews(parts@) =~= before + opt_word(!is_blank(base@), trim(base@)));
    assert(vviews(parts@) =~= shortcut_label_parts(m, base@));
    let sep = vec![' '];
    assert(sep@ =~= seq![' ']);
    join_chars(&parts, &sep)
}

impl ShortcutBinding {
    /// The bare Fn key.
    pub fn fn_key() -> (r: Self)
        ensures
            r.key_code is None,
            r.key@ == "fn"@,
            r.label@ == "Fn"@,
            r.modifiers == no_modifiers(),
    {
        ShortcutBinding {
            key_code: None,
            key: owned("fn"),
            label: owned("Fn"),
            modifiers: modifiers_none(),
        }
    }

    /// Fn pressed twice in quick succession.
    pub fn fn_double_tap() -> (r: Self)
        ensures
            r.key_code is None,
            r.key@ == "fn"@,
            r.label@ == "Fn Fn"@,
            r.modifiers == (ShortcutModifiers { function: true, ..no_modifiers() }),
    {
        ShortcutBinding {
            key_code: None,
            key: owned("fn"),
            label: owned("Fn Fn"),
            modifiers: ShortcutModifiers {
                command: false,
                option: false,
                control: false,
                shift: false,
                function: true,
            },
        }
    }

    /// Fn held with Space.
    pub fn fn_space() -> (r: Self)
        ensures
            r.key_code == Some(49i64),
            r.key@ == normalized_key("space"@),
            r.label@ == normalized_label(
                Some(49i64),
                normalized_key("space"@),
                "Space"@,
                ShortcutModifiers { function: true, ..no_modifiers() },
            ),
            r.modifiers == (ShortcutModifiers { function: true, ..no_modifiers() }),
    {
        Self::from_parts(
            Some(49),
            owned("space"),
            owned("Space"),
            ShortcutModifiers {
                command: false,
                option: false,
                control: false,
                shift: false,
                function: true,
            },
        )
    }

    /// Control, Option and P together.
    pub fn ctrl_option_p() -> (r: Self)
        ensures
            r.key_code == Some(35i64),
            r.key@ == normalized_key("p"@),
            r.label@ == normalized_label(
                Some(35i64),
                normalized_key("p"@),
                "P"@,
                ShortcutModifiers { control: true, option: true, ..no_modifiers() },
            ),
            r.modifiers == (ShortcutModifiers { control: true, option: true, ..no_modifiers() }),
    {
        Self::from_parts(
            Some(35),
            owned("p"),
            owned("P"),
            ShortcutModifiers {
                command: false,
                option: true,
                control: true,
                shift: false,
                function: false,
            },
        )
    }

    /// A binding built from its parts and then normalized.
    pub fn from_parts(
        key_code: Option<i64>,
        key: String,
        base_label: String,
        modifiers: ShortcutModifiers,
    ) -> (r: Self)
        ensures
            r.key_code == key_code,
            r.modifiers == modifiers,
            r.key@ == normalized_key(key@),
            r.label@ == normalized_label(key_code, normalized_key(key@), base_label@, modifiers),
    {
        let mut binding = ShortcutBinding { key_code, key, label: base_label, modifiers };
        binding.normalize();
        binding
    }

    /// Trims and lower-cases the key, and rebuilds the label from the modifiers
    /// and the key part of the old label.
    pub fn normalize(&mut self)
        ensures
            final(self).key_code == old(self).key_code,
            final(self).modifiers == old(self).modifiers,
            final(self).key@ == normalized_key(old(self).key@),
            final(self).label@ == normalized_label(
                old(self).key_code,
                normalized_key(old(self).key@),
                old(self).label@,
                old(self).modifiers,
            ),
    {
        let key_chars = chars_of(self.key.as_str());
        let trimmed = trim_chars(&key_chars);
        let lowered = lower_chars(&trimmed);
        self.key = string_from_chars(&lowered);
        let is_fn = self.is_fn_key();
        if is_fn {
            self.label = owned("Fn");
        } else {
            let label_chars = chars_of(self.label.as_str());
            let base = shortcut_base_label_exec(&label_chars, &lowered);
            let formatted = format_shortcut_label_exec(self.modifiers, &base);
            self.label = string_from_chars(&formatted);
        }
    }

    /// The binding is the bare Fn key (with or without a double tap).
    pub fn is_fn_key(&self) -> (r: bool)
        ensures
            r == is_fn_key_parts(self.key_code, self.key@),
    {
        self.key_code.is_none() && crate::text::str_eq(self.key.as_str(), "fn")
    }

    /// Both bindings trigger on the same input.
    pub fn is_same_shortcut(&self, other: &Self) -> (r: bool)
        ensures
            r == same_shortcut(*self, *other),
    {
        let same_code = match (self.key_code, other.key_code) {
            (Some(a), Some(b)) => a == b,
            (None, None) => true,
            _ => false,
        };
        same_code && self.key == other.key && self.modifiers == other.modifiers
            && self.is_fn_key() == other.is_fn_key()
    }
}

impl Default for ShortcutBinding {
    fn default() -> (r: Self)
        ensures
            r.key_code is None,
            r.key@ == "fn"@,
            r.label@ == "Fn"@,
            r.modifiers == no_modifiers(),
    {
        Self::fn_key()
    }
}


/// Prompt texts that replace the built-in ones; `None` keeps the built-in text.
#[derive(Debug, Clone, Default)]
pub struct PromptOverrides {
    pub translate_en_to_ja: Option<String>,
    pub translate_ja_to_en: Option<String>,
    pub openai_transcription: Option<String>,
    pub gemini_audio_system: Option<String>,
    pub gemini_audio_user: Option<String>,
    pub dictation_system: Option<String>,
    pub dictation_user: Option<String>,
    pub ask_without_selection_system: Option<String>,
    pub ask_without_selection_user: Option<String>,
    pub ask_with_selection_system: Option<String>,
    pub ask_with_selection_user: Option<String>,
}

/// The view of an optional text.
pub open spec fn opt_view(o: Option<String>) -> Option<Seq<char>> {
    match o {
        Some(s) => Some(s@),
        None => None,
    }
}

/// An override after cleaning: a blank text counts as no override.
pub open spec fn cleaned_override(o: Option<String>) -> Option<Seq<char>> {
    match o {
        Some(s) => if is_blank(s@) {
            None
        } else {
            Some(s@)
        },
        None => None,
    }
}

/// Every override after `PromptOverrides::sanitize`, field by field.
pub open spec fn overrides_sanitized(new: PromptOverrides, old: PromptOverrides) -> bool {
    &&& opt_view(new.translate_en_to_ja) == cleaned_override(old.translate_en_to_ja)
    &&& opt_view(new.translate_ja_to_en) == cleaned_override(old.translate_ja_to_en)
    &&& opt_view(new.openai_transcription) == cleaned_override(old.openai_transcription)
    &&& opt_view(new.gemini_audio_system) == cleaned_override(old.gemini_audio_system)
    &&& opt_view(new.gemini_audio_user) == cleaned_override(old.gemini_audio_user)
    &&& opt_view(new.dictation_system) == cleaned_override(old.dictation_system)
    &&& opt_view(new.dictation_user) == cleaned_override(old.dictation_user)
    &&& opt_view(new.ask_without_selection_system) == cleaned_override(
        old.ask_without_selection_system,
    )
    &&& opt_view(new.ask_without_selection_user) == cleaned_override(
        old.ask_without_selection_user,
    )
    &&& opt_view(new.ask_with_selection_system) == cleaned_override(old.ask_with_selection_system)
    &&& opt_view(new.ask_with_selection_user) == cleaned_override(old.ask_with_selection_user)
}

fn clean_override(value: &mut Option<String>)
    ensures
        opt_view(*final(value)) == cleaned_override(*old(value)),
{
    let blank = match value {
        Some(s) => is_blank_str(s.as_str()),
        None => false,
    };
    if blank {
        *value = None;
    }
}

impl PromptOverrides {
    /// Drops every override whose text is blank.
    pub fn sanitize(&mut self)
        ensures
            overrides_sanitized(*final(self), *old(self)),
    {
        clean_override(&mut self.translate_en_to_ja);
        clean_override(&mut self.translate_ja_to_en);
        clean_override(&mut self.openai_transcription);
        clean_override(&mut self.gemini_audio_system);
        clean_override(&mut self.gemini_audio_user);
        clean_override(&mut self.dictation_system);
        clean_override(&mut self.dictation_user);
        clean_override(&mut self.ask_without_selection_system);
        clean_override(&mut self.ask_without_selection_user);
        clean_override(&mut self.ask_with_selection_system);
        clean_override(&mut self.ask_with_selection_user);
    }
}

/// One editable prompt as the settings screen lists it.
#[derive(Debug, Clone)]
pub struct PromptCatalogItem {
    pub key: String,
    pub label: String,
    pub rows: u8,
    pub required: Vec<String>,
    pub default_text: String,
}

#[derive(Debug, Clone, Copy, PartialEq, Eq, Structural)]
pub struct TranslationSettings {
    pub source_language: UiLanguage,
    pub target_language: UiLanguage,
}

impl Default for TranslationSettings {
    fn default() -> (r: Self)
        ensures
            r.source_language == UiLanguage::En,
            r.target_language == UiLanguage::Ja,
    {
        TranslationSettings { source_language: UiLanguage::En, target_language: UiLanguage::Ja }
    }
}

#[derive(Debug, Clone, Copy, PartialEq, Eq, Structural)]
pub enum SystemAudioHandling {
    Mute,
    Isolate,
    Off,
}

impl Default for SystemAudioHandling {
    fn default() -> (r: Self)
        ensures
            r == SystemAudioHandling::Mute,
    {
        SystemAudioHandling::Mute
    }
}

pub const DEFAULT_VOICE_MODE_ID: &'static str = "default";

pub const TRANSCRIPT_TOKEN: &'static str = "{{transcript}}";

pub const DEFAULT_MODE_SYSTEM: &'static str = "あなたは日本語の音声入力編集者です。音声認識結果を、ユーザーがそのまま貼り付けられる自然な日本語文に整形します。出力は最終本文のみ。前置き、説明、引用符、ラベルは出しません。";

pub const DEFAULT_MODE_USER: &'static str = "{{dictionary_section}}\n\n音声認識結果:\n{{transcript}}\n\n要件:\n- 話し言葉の不要な言い直しを整理する。\n- 録音内に「これをこうまとめて」などの指示が含まれる場合、その意図に従って最終文章を作る。\n- 辞書の優先表記を必ず尊重する。\n- 内容を勝手に増やさない。";

pub const SPEED_MODE_SYSTEM: &'static str = "あなたは日本語の音声入力編集者です。音声認識結果を必要最小限だけ整えます。出力は最終本文のみ。前置き、説明、引用符、ラベルは出しません。";

pub const SPEED_MODE_USER: &'static str = "{{dictionary_section}}\n\n音声認識結果:\n{{transcript}}\n\n要件:\n- 文字起こし結果を大きく変えず、明らかな誤字や不要な空白だけ整える。\n- 内容を勝手に増やさない。";

pub const AI_PROMPT_MODE_SYSTEM: &'static str = "あなたはAIプロンプト設計者です。音声認識結果から、AIに渡しやすい明確で実行可能なプロンプトを作成します。出力はプロンプト本文のみ。前置き、説明、引用符、ラベルは出しません。";

pub const AI_PROMPT_MODE_USER: &'static str = "{{dictionary_section}}\n\n話した内容:\n{{transcript}}\n\n要件:\n- 話した意図を、AIへ渡す明確なプロンプトに再構成する。\n- 目的、背景、入力、制約、期待する出力形式を必要に応じて整理する。\n- 箇条書きや見出しは、プロンプトとして読みやすい場合だけ使う。\n- 内容を勝手に増やさず、曖昧な部分は自然な依頼文としてまとめる。";

pub const CASUAL_MODE_SYSTEM: &'static str = "あなたは日本語チャット文の編集者です。音声認識結果を、Slackなどのチャットにそのまま送れる親しみやすい文章へ整えます。出力は最終本文のみ。前置き、説明、引用符、ラベルは出しません。";

pub const CASUAL_MODE_USER: &'static str = "{{dictionary_section}}\n\n音声認識結果:\n{{transcript}}\n\n要件:\n- くだけすぎない親しみやすい文体にする。\n- 必要に応じて感嘆符を使い、硬さを和らげる。\n- 口癖、言い直し、不要な間を整理する。\n- 辞書の優先表記を必ず尊重する。\n- 内容を勝手に増やさない。";

pub const FORMAL_MODE_SYSTEM: &'static str = "あなたは日本語ビジネス文の編集者です。音声認識結果を、メール返信などに適したやや丁寧な文章へ整えます。出力は最終本文のみ。前置き、説明、引用符、ラベルは出しません。";

pub const FORMAL_MODE_USER: &'static str = "{{dictionary_section}}\n\n音声認識結果:\n{{transcript}}\n\n要件:\n- メールや業務チャットで使いやすい、やや丁寧な文体にする。\n- 過度に堅くしすぎず、自然な敬体で整える。\n- 口癖、言い直し、不要な間を整理する。\n- 辞書の優先表記を必ず尊重する。\n- 内容を勝手に増やさない。";

#[derive(Debug, Clone, Copy, PartialEq, Eq, Structural)]
pub enum VoiceModePresetKey {
    Default,
    Speed,
    AiPrompt,
    Casual,
    Formal,
}

/// A voice mode: how a transcript is turned into the pasted text.
#[derive(Debug, Clone)]
pub struct VoiceModeProfile {
    pub id: String,
    pub name: String,
    pub description: String,
    pub formatting_enabled: bool,
    pub system_prompt: String,
    pub user_prompt: String,
    pub deletable: bool,
    pub order: i64,
    pub preset_key: Option<VoiceModePresetKey>,
    pub live_transcription_enabled: bool,
}

/// The mathematical value of a voice mode.
#[verifier::ext_equal]
pub ghost struct ProfileView {
    pub id: Seq<char>,
    pub name: Seq<char>,
    pub description: Seq<char>,
    pub formatting_enabled: bool,
    pub system_prompt: Seq<char>,
    pub user_prompt: Seq<char>,
    pub deletable: bool,
    pub order: int,
    pub preset_key: Option<VoiceModePresetKey>,
    pub live_transcription_enabled: bool,
}

impl View for VoiceModeProfile {
    type V = ProfileView;

    open spec fn view(&self) -> ProfileView {
        ProfileView {
            id: self.id@,
            name: self.name@,
            description: self.description@,
            formatting_enabled: self.formatting_enabled,
            system_prompt: self.system_prompt@,
            user_prompt: self.user_prompt@,
            deletable: self.deletable,
            order: self.order as int,
            preset_key: self.preset_key,
            live_transcription_enabled: self.live_transcription_enabled,
        }
    }
}

pub open spec fn pviews(ps: Seq<VoiceModeProfile>) -> Seq<ProfileView> {
    ps.map_values(|p: VoiceModeProfile| p@)
}

pub open spec fn profile_view(
    id: &str,
    name: &str,
    description: &str,
    formatting_enabled: bool,
    system_prompt: &str,
    user_prompt: &str,
    deletable: bool,
    order: int,
    preset_key: Option<VoiceModePresetKey>,
) -> ProfileView {
    ProfileView {
        id: id@,
        name: name@,
        description: description@,
        formatting_enabled,
        system_prompt: system_prompt@,
        user_prompt: user_prompt@,
        deletable,
        order,
        preset_key,
        live_transcription_enabled: !formatting_enabled,
    }
}

/// The built-in "default" voice mode.
pub open spec fn default_profile_view() -> ProfileView {
    profile_view(
        DEFAULT_VOICE_MODE_ID,
        "デフォルト",
        "話した内容を自然な日本語文として整えます。",
        true,
        DEFAULT_MODE_SYSTEM,
        DEFAULT_MODE_USER,
        false,
        0,
        Some(VoiceModePresetKey::Default),
    )
}

/// The five built-in voice modes, in order.
pub open spec fn default_profile_views() -> Seq<ProfileView> {
    seq![
        default_profile_view(),
        profile_view(
            "speed",
            "スピード",
            "整形せず、文字起こし結果をすぐに出力します。",
            false,
            SPEED_MODE_SYSTEM,
            SPEED_MODE_USER,
            true,
            1,
            Some(VoiceModePresetKey::Speed),
        ),
        profile_view(
            "aiPrompt",
            "AIプロンプト",
            "話した内容をAIに渡しやすいプロンプトへ整えます。",
            true,
            AI_PROMPT_MODE_SYSTEM,
            AI_PROMPT_MODE_USER,
            true,
            2,
            Some(VoiceModePresetKey::AiPrompt),
        ),
        profile_view(
            "casual",
            "カジュアル",
            "Slackなどに合う親しみやすい文体へ整えます。",
            true,
            CASUAL_MODE_SYSTEM,
            CASUAL_MODE_USER,
            true,
            3,
            Some(VoiceModePresetKey::Casual),
        ),
        profile_view(
            "formal",
            "フォーマル",
            "メール返信などに合うやや丁寧な文体へ整えます。",
            true,
            FORMAL_MODE_SYSTEM,
            FORMAL_MODE_USER,
            true,
            4,
            Some(VoiceModePresetKey::Formal),
        ),
    ]
}

fn voice_mode_profile(
    id: &str,
    name: &str,
    description: &str,
    formatting_enabled: bool,
    system_prompt: &str,
    user_prompt: &str,
    deletable: bool,
    order: i64,
    preset_key: Option<VoiceModePresetKey>,
) -> (r: VoiceModeProfile)
    ensures
        r@ == profile_view(
            id,
            name,
            description,
            formatting_enabled,
            system_prompt,
            user_prompt,
            deletable,
            order as int,
            preset_key,
        ),
{
    VoiceModeProfile {
        id: owned(id),
        name: owned(name),
        description: owned(description),
        formatting_enabled,
        system_prompt: owned(system_prompt),
        user_prompt: owned(user_prompt),
        deletable,
        order,
        preset_key,
        live_transcription_enabled: !formatting_enabled,
    }
}

/// The built-in "default" voice mode.
pub fn default_voice_mode_profile() -> (r: VoiceModeProfile)
    ensures
        r@ == default_profile_view(),
{
    voice_mode_profile(
        DEFAULT_VOICE_MODE_ID,
        "デフォルト",
        "話した内容を自然な日本語文として整えます。",
        true,
        DEFAULT_MODE_SYSTEM,
        DEFAULT_MODE_USER,
        false,
        0,
        Some(VoiceModePresetKey::Default),
    )
}

/// The five built-in voice modes.
pub fn default_voice_mode_profiles() -> (r: Vec<VoiceModeProfile>)
    ensures
        pviews(r@) == default_profile_views(),
{
    let r = vec![
        default_voice_mode_profile(),
        voice_mode_profile(
            "speed",
            "スピード",
            "整形せず、文字起こし結果をすぐに出力します。",
            false,
            SPEED_MODE_SYSTEM,
            SPEED_MODE_USER,
            true,
            1,
            Some(VoiceModePresetKey::Speed),
        ),
        voice_mode_profile(
            "aiPrompt",
            "AIプロンプト",
            "話した内容をAIに渡しやすいプロンプトへ整えます。",
            true,
            AI_PROMPT_MODE_SYSTEM,
            AI_PROMPT_MODE_USER,
            true,
            2,
            Some(VoiceModePresetKey::AiPrompt),
        ),
        voice_mode_profile(
            "casual",
            "カジュアル",
            "Slackなどに合う親しみやすい文体へ整えます。",
            true,
            CASUAL_MODE_SYSTEM,
            CASUAL_MODE_USER,
            true,
            3,
            Some(VoiceModePresetKey::Casual),
        ),
        voice_mode_profile(
            "formal",
            "フォーマル",
            "メール返信などに合うやや丁寧な文体へ整えます。",
            true,
            FORMAL_MODE_SYSTEM,
            FORMAL_MODE_USER,
            true,
            4,
            Some(VoiceModePresetKey::Formal),
        ),
    ];
    assert(pviews(r@) =~= default_profile_views());
    r
}

impl Default for VoiceModeProfile {
    fn default() -> (r: Self)
        ensures
            r@ == default_profile_view(),
    {
        default_voice_mode_profile()
    }
}

/// An exact copy of a voice mode.
pub fn clone_profile(p: &VoiceModeProfile) -> (r: VoiceModeProfile)
    ensures
        r@ == p@,
{
    VoiceModeProfile {
        id: p.id.clone(),
        name: p.name.clone(),
        description: p.description.clone(),
        formatting_enabled: p.formatting_enabled,
        system_prompt: p.system_prompt.clone(),
        user_prompt: p.user_prompt.clone(),
        deletable: p.deletable,
        order: p.order,
        preset_key: p.preset_key,
        live_transcription_enabled: p.live_transcription_enabled,
    }
}


/// The id given to the voice mode at index `i` when its own id is unusable.
pub open spec fn custom_id(i: int) -> Seq<char> {
    "custom-"@ + decimal(i as nat)
}

/// Some voice mode has the id `id`.
pub open spec fn has_profile_id(ps: Seq<ProfileView>, id: Seq<char>) -> bool {
    exists|i: int| 0 <= i < ps.len() && (#[trigger] ps[i]).id == id
}

/// The default voice mode with prompts carried over from older settings.
pub open spec fn with_legacy_prompts(
    p: ProfileView,
    system: Option<Seq<char>>,
    user: Option<Seq<char>>,
) -> ProfileView {
    ProfileView {
        system_prompt: match system {
            Some(t) => trim(t),
            None => p.system_prompt,
        },
        user_prompt: match user {
            Some(t) => trim(t),
            None => p.user_prompt,
        },
        ..p
    }
}

/// An empty list of voice modes is replaced by the built-in ones.
pub open spec fn filled_profiles(
    ps: Seq<ProfileView>,
    system: Option<Seq<char>>,
    user: Option<Seq<char>>,
) -> Seq<ProfileView> {
    if ps.len() == 0 {
        default_profile_views().update(0, with_legacy_prompts(default_profile_view(), system, user))
    } else {
        ps
    }
}

/// The list with the built-in default mode put first when no mode has its id.
pub open spec fn with_default_profile(ps: Seq<ProfileView>) -> Seq<ProfileView> {
    if has_profile_id(ps, DEFAULT_VOICE_MODE_ID@) {
        ps
    } else {
        seq![default_profile_view()] + ps
    }
}

/// The id that the mode at index `i` keeps, given the ids taken before it.
pub open spec fn assigned_id(p: ProfileView, i: int, seen: Seq<Seq<char>>) -> Seq<char> {
    let t = trim(p.id);
    let first = if t.len() == 0 {
        custom_id(i)
    } else {
        t
    };
    if seen.contains(first) {
        custom_id(i)
    } else {
        first
    }
}

/// A voice mode with its texts trimmed, under the id `id`.
pub open spec fn cleaned_profile(p: ProfileView, id: Seq<char>) -> ProfileView {
    let is_default = id == DEFAULT_VOICE_MODE_ID@;
    ProfileView {
        id,
        name: trim(p.name),
        description: trim(p.description),
        system_prompt: trim(p.system_prompt),
        user_prompt: trim(p.user_prompt),
        deletable: if is_default {
            false
        } else {
            p.deletable
        },
        preset_key: if is_default {
            Some(VoiceModePresetKey::Default)
        } else {
            p.preset_key
        },
        ..p
    }
}

/// The modes from index `i` on, each cleaned and given its id.
pub open spec fn cleaned_profiles_from(
    ps: Seq<ProfileView>,
    i: int,
    seen: Seq<Seq<char>>,
) -> Seq<ProfileView>
    decreases ps.len() - i,
{
    if i < 0 || i >= ps.len() {
        Seq::empty()
    } else {
        let id = assigned_id(ps[i], i, seen);
        seq![cleaned_profile(ps[i], id)] + cleaned_profiles_from(ps, i + 1, seen.push(id))
    }
}

/// `p` inserted into `sorted` after every element whose order is at most its own.
pub open spec fn insert_by_order(sorted: Seq<ProfileView>, p: ProfileView) -> Seq<ProfileView>
    decreases sorted.len(),
{
    if sorted.len() == 0 {
        seq![p]
    } else if sorted.last().order <= p.order {
        sorted.push(p)
    } else {
        insert_by_order(sorted.drop_last(), p).push(sorted.last())
    }
}

/// A stable sort by `order`.
pub open spec fn sort_by_order(ps: Seq<ProfileView>) -> Seq<ProfileView>
    decreases ps.len(),
{
    if ps.len() == 0 {
        Seq::empty()
    } else {
        insert_by_order(sort_by_order(ps.drop_last()), ps.last())
    }
}

/// Each mode's order replaced by its position.
pub open spec fn renumbered(ps: Seq<ProfileView>) -> Seq<ProfileView> {
    Seq::new(ps.len(), |i: int| ProfileView { order: (i as i64) as int, ..ps[i] })
}

/// The voice modes after `ensure_mode_profiles`.
pub open spec fn ensured_profiles(
    ps: Seq<ProfileView>,
    system: Option<Seq<char>>,
    user: Option<Seq<char>>,
) -> Seq<ProfileView> {
    renumbered(
        sort_by_order(
            cleaned_profiles_from(
                with_default_profile(filled_profiles(ps, system, user)),
                0,
                Seq::empty(),
            ),
        ),
    )
}

/// The active mode id after `ensure_mode_profiles`, given the final modes.
pub open spec fn ensured_active_id(ps: Seq<ProfileView>, active: Seq<char>) -> Seq<char> {
    if is_blank(active) || !has_profile_id(ps, active) {
        DEFAULT_VOICE_MODE_ID@
    } else {
        active
    }
}

/// The index of the first mode at or after `i` with the id `id`.
pub open spec fn first_index_with_id(ps: Seq<ProfileView>, id: Seq<char>, i: int) -> Option<int>
    decreases ps.len() - i,
{
    if i < 0 || i >= ps.len() {
        None
    } else if ps[i].id == id {
        Some(i)
    } else {
        first_index_with_id(ps, id, i + 1)
    }
}

pub open spec fn profile_index(ps: Seq<ProfileView>, id: Seq<char>) -> Option<int> {
    first_index_with_id(ps, id, 0)
}

/// The mode with the id `id`, else the default mode, else the first mode.
pub open spec fn profile_or_default_index(ps: Seq<ProfileView>, id: Seq<char>) -> Option<int> {
    match profile_index(ps, id) {
        Some(k) => Some(k),
        None => match profile_index(ps, DEFAULT_VOICE_MODE_ID@) {
            Some(k) => Some(k),
            None => if ps.len() > 0 {
                Some(0)
            } else {
                None
            },
        },
    }
}

pub proof fn lemma_first_index_with_id(ps: Seq<ProfileView>, id: Seq<char>, i: int)
    requires
        0 <= i,
    ensures
        match first_index_with_id(ps, id, i) {
            Some(k) => i <= k < ps.len() && ps[k].id == id && forall|j: int|
                i <= j < k ==> (#[trigger] ps[j]).id != id,
            None => forall|j: int| i <= j < ps.len() ==> (#[trigger] ps[j]).id != id,
        },
    decreases ps.len() - i,
{
    if i < ps.len() && ps[i].id != id {
        lemma_first_index_with_id(ps, id, i + 1);
    }
}

pub proof fn lemma_profile_index(ps: Seq<ProfileView>, id: Seq<char>)
    ensures
        profile_index(ps, id) is Some <==> has_profile_id(ps, id),
        match profile_index(ps, id) {
            Some(k) => 0 <= k < ps.len() && ps[k].id == id,
            None => true,
        },
{
    lemma_first_index_with_id(ps, id, 0);
}

/// Messages that `validate_mode_profiles` reports.
pub open spec fn err_no_modes() -> Seq<char> {
    "音声モードを1つ以上設定してください。"@
}

pub open spec fn err_empty_id() -> Seq<char> {
    "音声モードのIDが空です。"@
}

pub open spec fn err_duplicate_id() -> Seq<char> {
    "音声モードのIDが重複しています。"@
}

pub open spec fn err_empty_name() -> Seq<char> {
    "音声モード名を入力してください。"@
}

pub open spec fn err_missing_transcript(name: Seq<char>) -> Seq<char> {
    name + "のユーザープロンプトには {{transcript}} を含めてください。"@
}

pub open spec fn err_default_deletable() -> Seq<char> {
    "デフォルトモードは削除不可にしてください。"@
}

pub open spec fn err_no_default() -> Seq<char> {
    "デフォルトモードが必要です。"@
}

pub open spec fn err_active_missing() -> Seq<char> {
    "現在ONの音声モードが見つかりません。"@
}

/// What is wrong with the mode at index `i`, given the modes before it.
pub open spec fn profile_error(ps: Seq<ProfileView>, i: int) -> Option<Seq<char>> {
    let p = ps[i];
    if is_blank(p.id) {
        Some(err_empty_id())
    } else if exists|j: int| 0 <= j < i && (#[trigger] ps[j]).id == p.id {
        Some(err_duplicate_id())
    } else if is_blank(p.name) {
        Some(err_empty_name())
    } else if p.formatting_enabled && !contains(p.user_prompt, TRANSCRIPT_TOKEN@) {
        Some(err_missing_transcript(p.name))
    } else if p.id == DEFAULT_VOICE_MODE_ID@ && p.deletable {
        Some(err_default_deletable())
    } else {
        None
    }
}

/// The first problem among the modes from index `i` on.
pub open spec fn first_profile_error(ps: Seq<ProfileView>, i: int) -> Option<Seq<char>>
    decreases ps.len() - i,
{
    if i < 0 || i >= ps.len() {
        None
    } else {
        match profile_error(ps, i) {
            Some(e) => Some(e),
            None => first_profile_error(ps, i + 1),
        }
    }
}

/// The error `validate_mode_profiles` reports, if any.
pub open spec fn mode_profiles_error(ps: Seq<ProfileView>, active: Seq<char>) -> Option<
    Seq<char>,
> {
    if ps.len() == 0 {
        Some(err_no_modes())
    } else {
        match first_profile_error(ps, 0) {
            Some(e) => Some(e),
            None => if !has_profile_id(ps, DEFAULT_VOICE_MODE_ID@) {
                Some(err_no_default())
            } else if !has_profile_id(ps, active) {
                Some(err_active_missing())
            } else {
                None
            },
        }
    }
}

/// A `Result` whose error is a string, against the error it should carry.
pub open spec fn result_matches(r: Result<(), String>, e: Option<Seq<char>>) -> bool {
    match r {
        Ok(()) => e is None,
        Err(m) => e == Some(m@),
    }
}

#[derive(Debug, Clone)]
pub struct VoiceSettings {
    pub selected_microphone_id: Option<String>,
    pub speech_profile: SpeechProfile,
    pub finalization_model: FinalizationModel,
    pub interaction_sounds_enabled: bool,
    pub system_audio_handling: SystemAudioHandling,
    pub max_recording_seconds: u64,
    pub google_cloud_project_id: String,
    pub google_cloud_region: String,
    pub google_cloud_use_adc: bool,
    pub mode_profiles: Vec<VoiceModeProfile>,
    pub active_mode_profile_id: String,
    pub screen_context_enabled: bool,
    pub screen_context_ocr_enabled: bool,
}

pub open spec fn default_google_cloud_region_text() -> Seq<char> {
    "asia-northeast1"@
}

fn default_google_cloud_region() -> (r: String)
    ensures
        r@ == default_google_cloud_region_text(),
{
    owned("asia-northeast1")
}

impl Default for VoiceSettings {
    fn default() -> (r: Self)
        ensures
            r.selected_microphone_id is None,
            r.speech_profile == SpeechProfile::GoogleChirp3,
            r.finalization_model == FinalizationModel::Gemini35Flash,
            r.interaction_sounds_enabled,
            r.system_audio_handling == SystemAudioHandling::Mute,
            r.max_recording_seconds == 300,
            r.google_cloud_project_id@ == Seq::<char>::empty(),
            r.google_cloud_region@ == default_google_cloud_region_text(),
            r.google_cloud_use_adc,
            pviews(r.mode_profiles@) == default_profile_views(),
            r.active_mode_profile_id@ == DEFAULT_VOICE_MODE_ID@,
            r.screen_context_enabled,
            r.screen_context_ocr_enabled,
    {
        VoiceSettings {
            selected_microphone_id: None,
            speech_profile: SpeechProfile::GoogleChirp3,
            finalization_model: FinalizationModel::Gemini35Flash,
            interaction_sounds_enabled: true,
            system_audio_handling: SystemAudioHandling::Mute,
            max_recording_seconds: 300,
            google_cloud_project_id: String::new(),
            google_cloud_region: default_google_cloud_region(),
            google_cloud_use_adc: true,
            mode_profiles: default_voice_mode_profiles(),
            active_mode_profile_id: owned(DEFAULT_VOICE_MODE_ID),
            screen_context_enabled: true,
            screen_context_ocr_enabled: true,
        }
    }
}

fn custom_id_exec(i: usize) -> (r: String)
    ensures
        r@ == custom_id(i as int),
{
    let mut v = chars_of("custom-");
    push_decimal(&mut v, i as u64);
    string_from_chars(&v)
}

fn seq_contains_chars(seen: &Vec<Vec<char>>, x: &Vec<char>) -> (r: bool)
    ensures
        r == vviews(seen@).contains(x@),
{
    let mut i: usize = 0;
    while i < seen.len()
        invariant
            0 <= i <= seen.len(),
            forall|k: int| 0 <= k < i ==> vviews(seen@)[k] != x@,
        decreases seen.len() - i,
    {
        if chars_eq(&seen[i], x) {
            assert(vviews(seen@)[i as int] == x@);
            return true;
        }
        i = i + 1;
    }
    false
}

fn has_profile_id_exec(ps: &Vec<VoiceModeProfile>, id: &str) -> (r: bool)
    ensures
        r == has_profile_id(pviews(ps@), id@),
{
    let mut i: usize = 0;
    while i < ps.len()
        invariant
            0 <= i <= ps.len(),
            forall|k: int| 0 <= k < i ==> pviews(ps@)[k].id != id@,
        decreases ps.len() - i,
    {
        if crate::text::str_eq(ps[i].id.as_str(), id) {
            assert(pviews(ps@)[i as int].id == id@);
            return true;
        }
        i = i + 1;
    }
    false
}

fn cleaned_profile_exec(p: &VoiceModeProfile, id: String) -> (r: VoiceModeProfile)
    ensures
        r@ == cleaned_profile(p@, id@),
{
    let is_default = crate::text::str_eq(id.as_str(), DEFAULT_VOICE_MODE_ID);
    VoiceModeProfile {
        id,
        name: trim_str(p.name.as_str()),
        description: trim_str(p.description.as_str()),
        formatting_enabled: p.formatting_enabled,
        system_prompt: trim_str(p.system_prompt.as_str()),
        user_prompt: trim_str(p.user_prompt.as_str()),
        deletable: if is_default {
            false
        } else {
            p.deletable
        },
        order: p.order,
        preset_key: if is_default {
            Some(VoiceModePresetKey::Default)
        } else {
            p.preset_key
        },
        live_transcription_enabled: p.live_transcription_enabled,
    }
}

/// The modes of `ps`, each cleaned and given a usable id.
fn clean_profiles(ps: &Vec<VoiceModeProfile>) -> (r: Vec<VoiceModeProfile>)
    ensures
        pviews(r@) == cleaned_profiles_from(pviews(ps@), 0, Seq::empty()),
{
    let ghost src = pviews(ps@);
    let mut out: Vec<VoiceModeProfile> = Vec::new();
    let mut seen: Vec<Vec<char>> = Vec::new();
    let mut i: usize = 0;
    assert(vviews(seen@) =~= Seq::<Seq<char>>::empty());
    assert(pviews(out@) + cleaned_profiles_from(src, 0, vviews(seen@)) =~= cleaned_profiles_from(
        src,
        0,
        Seq::empty(),
    ));
    while i < ps.len()
        invariant
            0 <= i <= ps.len(),
            src == pviews(ps@),
            pviews(out@) + cleaned_profiles_from(src, i as int, vviews(seen@))
                == cleaned_profiles_from(src, 0, Seq::empty()),
        decreases ps.len() - i,
    {
        let p = &ps[i];
        let idv = chars_of(p.id.as_str());
        let t = trim_chars(&idv);
        let first = if t.len() == 0 {
            chars_of(custom_id_exec(i).as_str())
        } else {
            t
        };
        let id_chars = if seq_contains_chars(&seen, &first) {
            chars_of(custom_id_exec(i).as_str())
        } else {
            first
        };
        assert(id_chars@ == assigned_id(src[i as int], i as int, vviews(seen@)));
        let id = string_from_chars(&id_chars);
        let q = cleaned_profile_exec(p, id);
        let ghost before_out = pviews(out@);
        let ghost before_seen = vviews(seen@);
        out.push(q);
        seen.push(id_chars);
        proof {
            assert(pviews(out@) =~= before_out.push(q@));
            assert(vviews(seen@) =~= before_seen.push(id_chars@));
            assert(cleaned_profiles_from(src, i as int, before_seen) == seq![q@]
                + cleaned_profiles_from(src, i + 1, vviews(seen@)));
            assert(pviews(out@) + cleaned_profiles_from(src, i + 1, vviews(seen@)) =~= before_out
                + cleaned_profiles_from(src, i as int, before_seen));
        }
        i = i + 1;
    }
    assert(pviews(out@) + Seq::<ProfileView>::empty() =~= pviews(out@));
    out
}

/// Where `insert_by_order` puts `p`: after the last element with an order at most its own.
pub open spec fn insert_position(s: Seq<ProfileView>, p: ProfileView, j: int) -> int
    decreases j,
{
    if j > 0 && j <= s.len() && s[j - 1].order > p.order {
        insert_position(s, p, j - 1)
    } else {
        j
    }
}

pub proof fn lemma_insert_by_order(s: Seq<ProfileView>, p: ProfileView)
    ensures
        0 <= insert_position(s, p, s.len() as int) <= s.len(),
        insert_by_order(s, p) == s.subrange(0, insert_position(s, p, s.len() as int)).push(p)
            + s.subrange(insert_position(s, p, s.len() as int), s.len() as int),
    decreases s.len(),
{
    let n = s.len() as int;
    if n == 0 {
        assert(insert_by_order(s, p) =~= s.subrange(0, 0).push(p) + s.subrange(0, 0));
    } else if s.last().order <= p.order {
        assert(insert_by_order(s, p) =~= s.subrange(0, n).push(p) + s.subrange(n, n));
    } else {
        let t = s.drop_last();
        lemma_insert_by_order(t, p);
        let j = insert_position(t, p, t.len() as int);
        assert(insert_position(s, p, n) == insert_position(s, p, n - 1));
        assert(insert_position(s, p, n - 1) == j) by {
            lemma_insert_position_prefix(s, p, n - 1);
        }
        assert(insert_by_order(s, p) =~= s.subrange(0, j).push(p) + s.subrange(j, n));
    }
}

pub proof fn lemma_insert_position_prefix(s: Seq<ProfileView>, p: ProfileView, j: int)
    requires
        0 <= j < s.len(),
    ensures
        insert_position(s, p, j) == insert_position(s.drop_last(), p, j),
    decreases j,
{
    if j > 0 && s[j - 1].order > p.order {
        lemma_insert_position_prefix(s, p, j - 1);
    }
}

/// Inserts `p` into `sorted` where `insert_by_order` puts it.
fn insert_sorted(sorted: &mut Vec<VoiceModeProfile>, p: VoiceModeProfile)
    ensures
        pviews(final(sorted)@) == insert_by_order(pviews(old(sorted)@), p@),
{
    let ghost s = pviews(sorted@);
    let mut j = sorted.len();
    while j > 0 && sorted[j - 1].order > p.order
        invariant
            0 <= j <= sorted.len(),
            s == pviews(sorted@),
            insert_position(s, p@, j as int) == insert_position(s, p@, s.len() as int),
        decreases j,
    {
        j = j - 1;
    }
    proof {
        lemma_insert_by_order(s, p@);
    }
    let ghost pv = p@;
    sorted.insert(j, p);
    assert(pviews(sorted@) =~= s.subrange(0, j as int).push(pv) + s.subrange(j as int, s.len() as int));
}

/// A stable sort of the modes by `order`.
fn sort_profiles(ps: Vec<VoiceModeProfile>) -> (r: Vec<VoiceModeProfile>)
    ensures
        pviews(r@) == sort_by_order(pviews(ps@)),
{
    let ghost src = pviews(ps@);
    let mut sorted: Vec<VoiceModeProfile> = Vec::new();
    let mut i: usize = 0;
    while i < ps.len()
        invariant
            0 <= i <= ps.len(),
            src == pviews(ps@),
            pviews(sorted@) == sort_by_order(src.subrange(0, i as int)),
        decreases ps.len() - i,
    {
        let p = clone_profile(&ps[i]);
        insert_sorted(&mut sorted, p);
        assert(src.subrange(0, i + 1).drop_last() =~= src.subrange(0, i as int));
        i = i + 1;
    }
    assert(src.subrange(0, ps.len() as int) =~= src);
    sorted
}

/// The modes with each order set to its position.
fn renumber_profiles(ps: &Vec<VoiceModeProfile>) -> (r: Vec<VoiceModeProfile>)
    ensures
        pviews(r@) == renumbered(pviews(ps@)),
{
    let mut out: Vec<VoiceModeProfile> = Vec::new();
    let mut i: usize = 0;
    while i < ps.len()
        invariant
            0 <= i <= ps.len(),
            pviews(out@) == renumbered(pviews(ps@)).subrange(0, i as int),
        decreases ps.len() - i,
    {
        let mut q = clone_profile(&ps[i]);
        q.order = #[verifier::truncate] (i as i64);
        assert(q@ == renumbered(pviews(ps@))[i as int]);
        let ghost before = pviews(out@);
        out.push(q);
        assert(pviews(out@) =~= before.push(q@));
        assert(pviews(out@) =~= renumbered(pviews(ps@)).subrange(0, i + 1));
        i = i + 1;
    }
    assert(renumbered(pviews(ps@)).subrange(0, ps.len() as int) =~= renumbered(pviews(ps@)));
    out
}

impl VoiceSettings {
    /// Repairs the voice modes: fills an empty list with the built-in modes
    /// (taking over legacy dictation prompts), puts the default mode back if it
    /// is missing, trims texts and gives each mode a unique non-empty id,
    /// sorts the modes by their order and renumbers them, and falls back to
    /// the default mode when the active one is missing.
    pub fn ensure_mode_profiles(&mut self, overrides: &PromptOverrides)
        ensures
            pviews(final(self).mode_profiles@) == ensured_profiles(
                pviews(old(self).mode_profiles@),
                opt_view(overrides.dictation_system),
                opt_view(overrides.dictation_user),
            ),
            final(self).active_mode_profile_id@ == ensured_active_id(
                pviews(final(self).mode_profiles@),
                old(self).active_mode_profile_id@,
            ),
            final(self).selected_microphone_id == old(self).selected_microphone_id,
            final(self).speech_profile == old(self).speech_profile,
            final(self).finalization_model == old(self).finalization_model,
            final(self).interaction_sounds_enabled == old(self).interaction_sounds_enabled,
            final(self).system_audio_handling == old(self).system_audio_handling,
            final(self).max_recording_seconds == old(self).max_recording_seconds,
            final(self).google_cloud_project_id == old(self).google_cloud_project_id,
            final(self).google_cloud_region == old(self).google_cloud_region,
            final(self).google_cloud_use_adc == old(self).google_cloud_use_adc,
            final(self).screen_context_enabled == old(self).screen_context_enabled,
            final(self).screen_context_ocr_enabled == old(self).screen_context_ocr_enabled,
    {
        let ghost sys = opt_view(overrides.dictation_system);
        let ghost usr = opt_view(overrides.dictation_user);
        let ghost start = pviews(self.mode_profiles@);
        let mut profiles: Vec<VoiceModeProfile> = Vec::new();
        if self.mode_profiles.len() == 0 {
            let mut defaults = default_voice_mode_profiles();
            let mut first = default_voice_mode_profile();
            match &overrides.dictation_system {
                Some(t) => {
                    first.system_prompt = trim_str(t.as_str());
                },
                None => {},
            }
            match &overrides.dictation_user {
                Some(t) => {
                    first.user_prompt = trim_str(t.as_str());
                },
                None => {},
            }
            let ghost fv = first@;
            assert(pviews(defaults@).len() == 5);
            defaults.set(0, first);
            assert(pviews(defaults@) =~= filled_profiles(start, sys, usr));
            profiles = defaults;
        } else {
            let mut k: usize = 0;
            while k < self.mode_profiles.len()
                invariant
                    0 <= k <= self.mode_profiles.len(),
                    pviews(profiles@) == pviews(self.mode_profiles@).subrange(0, k as int),
                decreases self.mode_profiles.len() - k,
            {
                let q = clone_profile(&self.mode_profiles[k]);
                let ghost before = pviews(profiles@);
                profiles.push(q);
                assert(pviews(profiles@) =~= before.push(q@));
                assert(pviews(profiles@) =~= pviews(self.mode_profiles@).subrange(0, k + 1));
                k = k + 1;
            }
            assert(pviews(profiles@) =~= filled_profiles(start, sys, usr));
        }
        let ghost filled = pviews(profiles@);
        if !has_profile_id_exec(&profiles, DEFAULT_VOICE_MODE_ID) {
            profiles.insert(0, default_voice_mode_profile());
            assert(pviews(profiles@) =~= with_default_profile(filled));
        }
        assert(pviews(profiles@) == with_default_profile(filled));
        let cleaned = clean_profiles(&profiles);
        let sorted = sort_profiles(cleaned);
        let renumbered = renumber_profiles(&sorted);
        self.mode_profiles = renumbered;
        let blank = is_blank_str(self.active_mode_profile_id.as_str());
        if blank || !has_profile_id_exec(&self.mode_profiles, self.active_mode_profile_id.as_str()) {
            self.active_mode_profile_id = owned(DEFAULT_VOICE_MODE_ID);
        }
    }

    /// The first mode with the id `id`.
    pub fn mode_profile_by_id(&self, id: &str) -> (r: Option<&VoiceModeProfile>)
        ensures
            match profile_index(pviews(self.mode_profiles@), id@) {
                Some(k) => r is Some && r.unwrap()@ == pviews(self.mode_profiles@)[k],
                None => r is None,
            },
    {
        let ghost ps = pviews(self.mode_profiles@);
        let mut i: usize = 0;
        while i < self.mode_profiles.len()
            invariant
                0 <= i <= self.mode_profiles.len(),
                ps == pviews(self.mode_profiles@),
                first_index_with_id(ps, id@, i as int) == profile_index(ps, id@),
            decreases self.mode_profiles.len() - i,
        {
            if crate::text::str_eq(self.mode_profiles[i].id.as_str(), id) {
                return Some(&self.mode_profiles[i]);
            }
            i = i + 1;
        }
        None
    }

    /// The mode with the id `id`, else the default mode, else the first mode.
    pub fn mode_profile_or_default(&self, id: &str) -> (r: Option<&VoiceModeProfile>)
        ensures
            match profile_or_default_index(pviews(self.mode_profiles@), id@) {
                Some(k) => r is Some && r.unwrap()@ == pviews(self.mode_profiles@)[k],
                None => r is None,
            },
    {
        match self.mode_profile_by_id(id) {
            Some(p) => Some(p),
            None => match self.mode_profile_by_id(DEFAULT_VOICE_MODE_ID) {
                Some(p) => Some(p),
                None => if self.mode_profiles.len() > 0 {
                    Some(&self.mode_profiles[0])
                } else {
                    None
                },
            },
        }
    }

    /// The active mode (falling back as `mode_profile_or_default` does).
    pub fn active_mode_profile(&self) -> (r: Option<&VoiceModeProfile>)
        ensures
            match profile_or_default_index(
                pviews(self.mode_profiles@),
                self.active_mode_profile_id@,
            ) {
                Some(k) => r is Some && r.unwrap()@ == pviews(self.mode_profiles@)[k],
                None => r is None,
            },
    {
        self.mode_profile_or_default(self.active_mode_profile_id.as_str())
    }

    /// The id of the mode after the one with id `current_id` (after the default
    /// mode, or after the first, when no mode has that id), wrapping around.
    pub fn next_mode_profile_id(&self, current_id: &str) -> (r: Option<String>)
        ensures
            r is Some <==> self.mode_profiles.len() > 0,
            r is Some ==> r.unwrap()@ == pviews(self.mode_profiles@)[next_index(
                pviews(self.mode_profiles@),
                current_id@,
            )].id,
    {
        if self.mode_profiles.len() == 0 {
            return None;
        }
        let ghost ps = pviews(self.mode_profiles@);
        let mut i: usize = 0;
        while i < self.mode_profiles.len() && !crate::text::str_eq(
            self.mode_profiles[i].id.as_str(),
            current_id,
        )
            invariant
                0 <= i <= self.mode_profiles.len(),
                ps == pviews(self.mode_profiles@),
                first_index_with_id(ps, current_id@, i as int) == profile_index(ps, current_id@),
            decreases self.mode_profiles.len() - i,
        {
            i = i + 1;
        }
        let current_index: usize = if i < self.mode_profiles.len() {
            i
        } else {
            let mut j: usize = 0;
            while j < self.mode_profiles.len() && !crate::text::str_eq(
                self.mode_profiles[j].id.as_str(),
                DEFAULT_VOICE_MODE_ID,
            )
                invariant
                    0 <= j <= self.mode_profiles.len(),
                    ps == pviews(self.mode_profiles@),
                    first_index_with_id(ps, DEFAULT_VOICE_MODE_ID@, j as int) == profile_index(
                        ps,
                        DEFAULT_VOICE_MODE_ID@,
                    ),
                decreases self.mode_profiles.len() - j,
            {
                j = j + 1;
            }
            if j < self.mode_profiles.len() {
                j
            } else {
                0
            }
        };
        assert(current_index as int == current_position(ps, current_id@));
        let next = (current_index + 1) % self.mode_profiles.len();
        Some(self.mode_profiles[next].id.clone())
    }

    /// Checks the voice modes: at least one, non-empty unique ids, names,
    /// the transcript placeholder where formatting is on, a default mode that
    /// cannot be deleted, and an active mode that exists.
    pub fn validate_mode_profiles(&self) -> (r: Result<(), String>)
        ensures
            result_matches(
                r,
                mode_profiles_error(pviews(self.mode_profiles@), self.active_mode_profile_id@),
            ),
    {
        let ghost ps = pviews(self.mode_profiles@);
        if self.mode_profiles.len() == 0 {
            return Err(owned("音声モードを1つ以上設定してください。"));
        }
        let mut i: usize = 0;
        while i < self.mode_profiles.len()
            invariant
                0 <= i <= self.mode_profiles.len(),
                ps == pviews(self.mode_profiles@),
                first_profile_error(ps, 0) == first_profile_error(ps, i as int),
            decreases self.mode_profiles.len() - i,
        {
            let p = &self.mode_profiles[i];
            if is_blank_str(p.id.as_str()) {
                return Err(owned("音声モードのIDが空です。"));
            }
            let mut j: usize = 0;
            let mut dup = false;
            assert(ps[i as int] == self.mode_profiles@[i as int]@);
            while j < i
                invariant
                    0 <= j <= i < self.mode_profiles.len(),
                    ps == pviews(self.mode_profiles@),
                    ps[i as int].id == p.id@,
                    dup == (exists|k: int| 0 <= k < j && (#[trigger] ps[k]).id == ps[i as int].id),
                decreases i - j,
            {
                let same = crate::text::str_eq(self.mode_profiles[j].id.as_str(), p.id.as_str());
                assert(ps[j as int].id == self.mode_profiles@[j as int].id@);
                if same {
                    dup = true;
                }
                j = j + 1;
            }
            if dup {
                return Err(owned("音声モードのIDが重複しています。"));
            }
            if is_blank_str(p.name.as_str()) {
                return Err(owned("音声モード名を入力してください。"));
            }
            if p.formatting_enabled && !crate::text::contains_str(
                p.user_prompt.as_str(),
                TRANSCRIPT_TOKEN,
            ) {
                let mut m = chars_of(p.name.as_str());
                crate::text::append_str_chars(
                    &mut m,
                    "のユーザープロンプトには {{transcript}} を含めてください。",
                );
                return Err(string_from_chars(&m));
            }
            if crate::text::str_eq(p.id.as_str(), DEFAULT_VOICE_MODE_ID) && p.deletable {
                return Err(owned("デフォルトモードは削除不可にしてください。"));
            }
            i = i + 1;
        }
        if !has_profile_id_exec(&self.mode_profiles, DEFAULT_VOICE_MODE_ID) {
            return Err(owned("デフォルトモードが必要です。"));
        }
        if !has_profile_id_exec(&self.mode_profiles, self.active_mode_profile_id.as_str()) {
            return Err(owned("現在ONの音声モードが見つかりません。"));
        }
        Ok(())
    }
}

/// The position `next_mode_profile_id` starts from.
pub open spec fn current_position(ps: Seq<ProfileView>, id: Seq<char>) -> int {
    match profile_index(ps, id) {
        Some(k) => k,
        None => match profile_index(ps, DEFAULT_VOICE_MODE_ID@) {
            Some(k) => k,
            None => 0,
        },
    }
}

/// The position of the mode after the current one, wrapping around.
pub open spec fn next_index(ps: Seq<ProfileView>, id: Seq<char>) -> int {
    (current_position(ps, id) + 1) % (ps.len() as int)
}


#[derive(Debug, Clone)]
pub struct ShortcutSettings {
    pub voice_dictation: ShortcutBinding,
    pub voice_ask: ShortcutBinding,
    pub polish_selection: ShortcutBinding,
}

impl Default for ShortcutSettings {
    fn default() -> (r: Self)
        ensures
            r.voice_dictation.key_code is None,
            r.voice_dictation.key@ == "fn"@,
            r.voice_dictation.label@ == "Fn"@,
            r.voice_dictation.modifiers == no_modifiers(),
            r.voice_ask.key_code == Some(49i64),
            r.voice_ask.key@ == normalized_key("space"@),
            r.voice_ask.modifiers == (ShortcutModifiers { function: true, ..no_modifiers() }),
            r.polish_selection.key_code == Some(35i64),
            r.polish_selection.key@ == normalized_key("p"@),
            r.polish_selection.modifiers == (ShortcutModifiers {
                control: true,
                option: true,
                ..no_modifiers()
            }),
    {
        ShortcutSettings {
            voice_dictation: ShortcutBinding::fn_key(),
            voice_ask: ShortcutBinding::fn_space(),
            polish_selection: ShortcutBinding::ctrl_option_p(),
        }
    }
}

#[derive(Debug, Clone, Default)]
pub struct PromptSettings {
    pub overrides: PromptOverrides,
}

#[derive(Debug, Clone, Copy, PartialEq, Eq, Structural)]
pub struct AppBehaviorSettings {
    pub double_tap_threshold_ms: u64,
    pub launch_at_login: bool,
}

impl Default for AppBehaviorSettings {
    fn default() -> (r: Self)
        ensures
            r.double_tap_threshold_ms == 400,
            !r.launch_at_login,
    {
        AppBehaviorSettings { double_tap_threshold_ms: 400, launch_at_login: false }
    }
}

#[derive(Debug, Clone)]
pub struct AppSettings {
    pub translation: TranslationSettings,
    pub voice: VoiceSettings,
    pub shortcuts: ShortcutSettings,
    pub prompts: PromptSettings,
    pub app: AppBehaviorSettings,
}

/// The settings a fresh install starts with.
pub open spec fn default_settings(r: AppSettings) -> bool {
    &&& r.translation.source_language == UiLanguage::En
    &&& r.translation.target_language == UiLanguage::Ja
    &&& r.voice.selected_microphone_id is None
    &&& r.voice.speech_profile == SpeechProfile::GoogleChirp3
    &&& r.voice.finalization_model == FinalizationModel::Gemini35Flash
    &&& r.voice.interaction_sounds_enabled
    &&& r.voice.system_audio_handling == SystemAudioHandling::Mute
    &&& r.voice.max_recording_seconds == 300
    &&& r.voice.google_cloud_project_id@ == Seq::<char>::empty()
    &&& r.voice.google_cloud_region@ == default_google_cloud_region_text()
    &&& r.voice.google_cloud_use_adc
    &&& pviews(r.voice.mode_profiles@) == default_profile_views()
    &&& r.voice.active_mode_profile_id@ == DEFAULT_VOICE_MODE_ID@
    &&& r.voice.screen_context_enabled
    &&& r.voice.screen_context_ocr_enabled
    &&& r.shortcuts.voice_dictation.key_code is None
    &&& r.shortcuts.voice_dictation.key@ == "fn"@
    &&& r.shortcuts.voice_dictation.label@ == "Fn"@
    &&& r.shortcuts.voice_dictation.modifiers == no_modifiers()
    &&& r.shortcuts.voice_ask.key_code == Some(49i64)
    &&& r.shortcuts.voice_ask.key@ == normalized_key("space"@)
    &&& r.shortcuts.voice_ask.modifiers == (ShortcutModifiers { function: true, ..no_modifiers() })
    &&& r.shortcuts.polish_selection.key_code == Some(35i64)
    &&& r.shortcuts.polish_selection.key@ == normalized_key("p"@)
    &&& r.prompts.overrides.dictation_system is None
    &&& r.prompts.overrides.dictation_user is None
    &&& r.app.double_tap_threshold_ms == 400
    &&& !r.app.launch_at_login
}

impl Default for AppSettings {
    fn default() -> (r: Self)
        ensures
            default_settings(r),
    {
        AppSettings {
            translation: TranslationSettings::default(),
            voice: VoiceSettings::default(),
            shortcuts: ShortcutSettings::default(),
            prompts: PromptSettings {
                overrides: PromptOverrides {
                    translate_en_to_ja: None,
                    translate_ja_to_en: None,
                    openai_transcription: None,
                    gemini_audio_system: None,
                    gemini_audio_user: None,
                    dictation_system: None,
                    dictation_user: None,
                    ask_without_selection_system: None,
                    ask_without_selection_user: None,
                    ask_with_selection_system: None,
                    ask_with_selection_user: None,
                },
            },
            app: AppBehaviorSettings::default(),
        }
    }
}

/// `x.clamp(lo, hi)`.
pub open spec fn clamp(x: int, lo: int, hi: int) -> int {
    if x < lo {
        lo
    } else if x > hi {
        hi
    } else {
        x
    }
}

/// A binding after `normalize`.
pub open spec fn binding_normalized(new: ShortcutBinding, old: ShortcutBinding) -> bool {
    &&& new.key_code == old.key_code
    &&& new.modifiers == old.modifiers
    &&& new.key@ == normalized_key(old.key@)
    &&& new.label@ == normalized_label(
        old.key_code,
        normalized_key(old.key@),
        old.label@,
        old.modifiers,
    )
}

pub open spec fn err_escape_shortcut() -> Seq<char> {
    "Escapeは録音キャンセルに使用するため、ショートカットには設定できません。"@
}

pub open spec fn err_unset_shortcut(label: Seq<char>) -> Seq<char> {
    label + "のショートカットを設定してください。"@
}

pub open spec fn err_same_shortcut() -> Seq<char> {
    "音声入力と音声指示に同じショートカットは設定できません。"@
}

/// What is wrong with one shortcut, if anything.
pub open spec fn shortcut_error(label: Seq<char>, b: ShortcutBinding) -> Option<Seq<char>> {
    if is_fn_key_parts(b.key_code, b.key@) {
        None
    } else if b.key_code is None {
        Some(err_unset_shortcut(label))
    } else if b.key_code == Some(53i64) || b.key@ == "escape"@ {
        Some(err_escape_shortcut())
    } else if is_blank(b.key@) || is_blank(b.label@) {
        Some(err_unset_shortcut(label))
    } else {
        None
    }
}

pub open spec fn dictation_shortcut_label() -> Seq<char> {
    "音声入力開始/停止"@
}

pub open spec fn ask_shortcut_label() -> Seq<char> {
    "選択テキストへの音声指示"@
}

/// The error `validate_shortcuts` reports, if any.
pub open spec fn shortcuts_error(s: ShortcutSettings) -> Option<Seq<char>> {
    match shortcut_error(dictation_shortcut_label(), s.voice_dictation) {
        Some(e) => Some(e),
        None => match shortcut_error(ask_shortcut_label(), s.voice_ask) {
            Some(e) => Some(e),
            None => if same_shortcut(s.voice_dictation, s.voice_ask) {
                Some(err_same_shortcut())
            } else {
                None
            },
        },
    }
}

fn validate_shortcut(label: &str, shortcut: &ShortcutBinding) -> (r: Result<(), String>)
    ensures
        result_matches(r, shortcut_error(label@, *shortcut)),
{
    if shortcut.is_fn_key() {
        return Ok(());
    }
    let key_code = match shortcut.key_code {
        Some(k) => k,
        None => {
            let mut m = chars_of(label);
            crate::text::append_str_chars(&mut m, "のショートカットを設定してください。");
            return Err(string_from_chars(&m));
        },
    };
    if key_code == 53 || crate::text::str_eq(shortcut.key.as_str(), "escape") {
        return Err(owned("Escapeは録音キャンセルに使用するため、ショートカットには設定できません。"));
    }
    if is_blank_str(shortcut.key.as_str()) || is_blank_str(shortcut.label.as_str()) {
        let mut m = chars_of(label);
        crate::text::append_str_chars(&mut m, "のショートカットを設定してください。");
        return Err(string_from_chars(&m));
    }
    Ok(())
}

/// What `sanitize` makes of the settings `old`.
pub open spec fn sanitized(new: AppSettings, old: AppSettings) -> bool {
    &&& new.translation.source_language == old.translation.source_language
    &&& new.translation.target_language == repaired_target(old.translation.source_language, old.translation.target_language)
    &&& new.voice.max_recording_seconds == clamp(old.voice.max_recording_seconds as int, 5, 600)
    &&& new.voice.google_cloud_region@ == (if is_blank(old.voice.google_cloud_region@) { default_google_cloud_region_text() } else { old.voice.google_cloud_region@ })
    &&& new.app.double_tap_threshold_ms == clamp(old.app.double_tap_threshold_ms as int, 100, 2000)
    &&& new.app.launch_at_login == old.app.launch_at_login
    &&& binding_normalized(new.shortcuts.voice_dictation, old.shortcuts.voice_dictation)
    &&& binding_normalized(new.shortcuts.voice_ask, old.shortcuts.voice_ask)
    &&& binding_normalized(new.shortcuts.polish_selection, old.shortcuts.polish_selection)
    &&& overrides_sanitized(new.prompts.overrides, old.prompts.overrides)
    &&& pviews(new.voice.mode_profiles@) == ensured_profiles(pviews(old.voice.mode_profiles@), cleaned_override(old.prompts.overrides.dictation_system), cleaned_override(old.prompts.overrides.dictation_user))
    &&& new.voice.active_mode_profile_id@ == ensured_active_id(pviews(new.voice.mode_profiles@), old.voice.active_mode_profile_id@)
    &&& new.voice.selected_microphone_id == old.voice.selected_microphone_id
    &&& new.voice.speech_profile == old.voice.speech_profile
    &&& new.voice.finalization_model == old.voice.finalization_model
    &&& new.voice.interaction_sounds_enabled == old.voice.interaction_sounds_enabled
    &&& new.voice.system_audio_handling == old.voice.system_audio_handling
    &&& new.voice.google_cloud_project_id == old.voice.google_cloud_project_id
    &&& new.voice.google_cloud_use_adc == old.voice.google_cloud_use_adc
    &&& new.voice.screen_context_enabled == old.voice.screen_context_enabled
    &&& new.voice.screen_context_ocr_enabled == old.voice.screen_context_ocr_enabled
}

impl AppSettings {
    /// Repairs settings read from disk: distinct translation languages, the
    /// recording limit within 5..=600 s, a region, the double-tap threshold
    /// within 100..=2000 ms, normalized shortcuts, blank prompt overrides
    /// dropped, and repaired voice modes.
    pub fn sanitize(&mut self)
        ensures
            sanitized(*final(self), *old(self)),
    {
        if self.translation.source_language == self.translation.target_language {
            self.translation.target_language = self.translation.source_language.other();
        }
        let secs = self.voice.max_recording_seconds;
        self.voice.max_recording_seconds = if secs < 5 {
            5
        } else if secs > 600 {
            600
        } else {
            secs
        };
        if is_blank_str(self.voice.google_cloud_region.as_str()) {
            self.voice.google_cloud_region = default_google_cloud_region();
        }
        let ms = self.app.double_tap_threshold_ms;
        self.app.double_tap_threshold_ms = if ms < 100 {
            100
        } else if ms > 2000 {
            2000
        } else {
            ms
        };
        self.shortcuts.voice_dictation.normalize();
        self.shortcuts.voice_ask.normalize();
        self.shortcuts.polish_selection.normalize();
        self.prompts.overrides.sanitize();
        self.voice.ensure_mode_profiles(&self.prompts.overrides);
    }

    /// Checks the dictation and ask shortcuts, and that they differ.
    pub fn validate_shortcuts(&self) -> (r: Result<(), String>)
        ensures
            result_matches(r, shortcuts_error(self.shortcuts)),
    {
        match validate_shortcut("音声入力開始/停止", &self.shortcuts.voice_dictation) {
            Ok(()) => {},
            Err(e) => {
                return Err(e);
            },
        }
        match validate_shortcut("選択テキストへの音声指示", &self.shortcuts.voice_ask) {
            Ok(()) => {},
            Err(e) => {
                return Err(e);
            },
        }
        if self.shortcuts.voice_dictation.is_same_shortcut(&self.shortcuts.voice_ask) {
            return Err(owned("音声入力と音声指示に同じショートカットは設定できません。"));
        }
        Ok(())
    }
}

impl UiLanguage {
    pub open spec fn other_spec(self) -> UiLanguage {
        match self {
            UiLanguage::En => UiLanguage::Ja,
            UiLanguage::Ja => UiLanguage::En,
        }
    }
}

/// The target language after repair: the other language when both were the same.
pub open spec fn repaired_target(source: UiLanguage, target: UiLanguage) -> UiLanguage {
    if source == target {
        source.other_spec()
    } else {
        target
    }
}

/// An exact copy of optional text.
fn clone_opt(o: &Option<String>) -> (r: Option<String>)
    ensures
        r == *o,
{
    match o {
        Some(s) => Some(s.clone()),
        None => None,
    }
}

/// A copy of the prompt overrides.
pub fn clone_overrides(o: &PromptOverrides) -> (r: PromptOverrides)
    ensures
        r == *o,
{
    PromptOverrides {
        translate_en_to_ja: clone_opt(&o.translate_en_to_ja),
        translate_ja_to_en: clone_opt(&o.translate_ja_to_en),
        openai_transcription: clone_opt(&o.openai_transcription),
        gemini_audio_system: clone_opt(&o.gemini_audio_system),
        gemini_audio_user: clone_opt(&o.gemini_audio_user),
        dictation_system: clone_opt(&o.dictation_system),
        dictation_user: clone_opt(&o.dictation_user),
        ask_without_selection_system: clone_opt(&o.ask_without_selection_system),
        ask_without_selection_user: clone_opt(&o.ask_without_selection_user),
        ask_with_selection_system: clone_opt(&o.ask_with_selection_system),
        ask_with_selection_user: clone_opt(&o.ask_with_selection_user),
    }
}

/// A copy of a list of voice modes.
pub fn clone_profiles(ps: &Vec<VoiceModeProfile>) -> (r: Vec<VoiceModeProfile>)
    ensures
        pviews(r@) == pviews(ps@),
{
    let mut out: Vec<VoiceModeProfile> = Vec::new();
    let mut k: usize = 0;
    while k < ps.len()
        invariant
            0 <= k <= ps.len(),
            pviews(out@) == pviews(ps@).subrange(0, k as int),
        decreases ps.len() - k,
    {
        let q = clone_profile(&ps[k]);
        let ghost before = pviews(out@);
        out.push(q);
        assert(pviews(out@) =~= before.push(q@));
        assert(pviews(out@) =~= pviews(ps@).subrange(0, k + 1));
        k = k + 1;
    }
    assert(pviews(ps@).subrange(0, ps.len() as int) =~= pviews(ps@));
    out
}

/// Two settings values that agree on every field (voice modes by value).
pub open spec fn same_settings(a: AppSettings, b: AppSettings) -> bool {
    &&& a.translation == b.translation
    &&& a.voice.selected_microphone_id == b.voice.selected_microphone_id
    &&& a.voice.speech_profile == b.voice.speech_profile
    &&& a.voice.finalization_model == b.voice.finalization_model
    &&& a.voice.interaction_sounds_enabled == b.voice.interaction_sounds_enabled
    &&& a.voice.system_audio_handling == b.voice.system_audio_handling
    &&& a.voice.max_recording_seconds == b.voice.max_recording_seconds
    &&& a.voice.google_cloud_project_id == b.voice.google_cloud_project_id
    &&& a.voice.google_cloud_region == b.voice.google_cloud_region
    &&& a.voice.google_cloud_use_adc == b.voice.google_cloud_use_adc
    &&& pviews(a.voice.mode_profiles@) == pviews(b.voice.mode_profiles@)
    &&& a.voice.active_mode_profile_id == b.voice.active_mode_profile_id
    &&& a.voice.screen_context_enabled == b.voice.screen_context_enabled
    &&& a.voice.screen_context_ocr_enabled == b.voice.screen_context_ocr_enabled
    &&& a.shortcuts == b.shortcuts
    &&& a.prompts.overrides == b.prompts.overrides
    &&& a.app == b.app
}

/// A copy of the settings.
pub fn clone_settings(s: &AppSettings) -> (r: AppSettings)
    ensures
        same_settings(r, *s),
{
    AppSettings {
        translation: s.translation,
        voice: VoiceSettings {
            selected_microphone_id: clone_opt(&s.voice.selected_microphone_id),
            speech_profile: s.voice.speech_profile,
            finalization_model: s.voice.finalization_model,
            interaction_sounds_enabled: s.voice.interaction_sounds_enabled,
            system_audio_handling: s.voice.system_audio_handling,
            max_recording_seconds: s.voice.max_recording_seconds,
            google_cloud_project_id: s.voice.google_cloud_project_id.clone(),
            google_cloud_region: s.voice.google_cloud_region.clone(),
            google_cloud_use_adc: s.voice.google_cloud_use_adc,
            mode_profiles: clone_profiles(&s.voice.mode_profiles),
            active_mode_profile_id: s.voice.active_mode_profile_id.clone(),
            screen_context_enabled: s.voice.screen_context_enabled,
            screen_context_ocr_enabled: s.voice.screen_context_ocr_enabled,
        },
        shortcuts: ShortcutSettings {
            voice_dictation: clone_binding(&s.shortcuts.voice_dictation),
            voice_ask: clone_binding(&s.shortcuts.voice_ask),
            polish_selection: clone_binding(&s.shortcuts.polish_selection),
        },
        prompts: PromptSettings { overrides: clone_overrides(&s.prompts.overrides) },
        app: s.app,
    }
}

/// The settings the running app works with.
pub struct SettingsStore {
    settings: AppSettings,
}

impl SettingsStore {
    /// The store of the value the store holds.
    pub closed spec fn value(&self) -> AppSettings {
        self.settings
    }

    /// A store holding the default settings.
    pub fn with_defaults() -> (r: Self)
        ensures
            default_settings(r.value()),
    {
        SettingsStore { settings: AppSettings::default() }
    }

    /// A store holding `settings`.
    pub fn new(settings: AppSettings) -> (r: Self)
        ensures
            r.value() == settings,
    {
        SettingsStore { settings }
    }

    /// A copy of the current settings.
    pub fn get(&self) -> (r: AppSettings)
        ensures
            same_settings(r, self.value()),
    {
        clone_settings(&self.settings)
    }

    /// Replaces the current settings.
    pub fn replace(&mut self, settings: AppSettings)
        ensures
            final(self).value() == settings,
    {
        self.settings = settings;
    }
}

} // verus!
