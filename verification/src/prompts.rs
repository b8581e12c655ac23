//! The built-in prompts, their overrides, and how templates are filled in.
use vstd::prelude::*;

use crate::settings::{PromptCatalogItem, PromptOverrides, UiLanguage};
use crate::text::{
    chars_of, contains, contains_str, is_blank, is_blank_str, owned, replace_all, replace_str,
    string_from_chars, sviews,
};

verus! {

pub const TRANSLATE_EN_TO_JA: &'static str = "あなたはプロの翻訳家であり、ネイティブスピーカーです。入力された英語のテキストを自然な日本語に翻訳してください。\n\n出力は翻訳文のみとし、見出し・ラベル（「翻訳」など）・前置き・解説・ニュアンス説明・別の表現案・箇条書きは一切出力しないでください。段落が必要な場合は空行で区切ってよい。";

pub const TRANSLATE_JA_TO_EN: &'static str = "You are a professional translator and native speaker. Translate the user's Japanese input into natural English.\n\nOutput only the translation. Do not output headings, labels (such as \"Translation\"), preambles, explanations, nuance notes, alternative phrasings, or bullet points. Use a blank line between paragraphs if needed.";

pub const OPENAI_TRANSCRIPTION: &'static str = "日本語の音声です。固有名詞と専門用語を正確に文字起こししてください。{{dictionary_context_block}}";

pub const GEMINI_AUDIO_SYSTEM: &'static str = "あなたは日本語音声の文字起こし専門家です。";

pub const GEMINI_AUDIO_USER: &'static str = "添付された日本語音声を、できるだけ正確に文字起こししてください。出力は文字起こし本文のみ。{{dictionary_context_block}}";

pub const DICTATION_SYSTEM: &'static str = "あなたは日本語の音声入力編集者です。音声認識結果を、ユーザーがそのまま貼り付けられる自然な日本語文に整形します。出力は最終本文のみ。前置き、説明、引用符、ラベルは出しません。";

pub const DICTATION_USER: &'static str = "{{dictionary_section}}\n\n音声認識結果:\n{{transcript}}\n\n要件:\n- 話し言葉の不要な言い直しを整理する。\n- 録音内に「これをこうまとめて」などの指示が含まれる場合、その意図に従って最終文章を作る。\n- 辞書の優先表記を必ず尊重する。\n- 内容を勝手に増やさない。";

pub const ASK_WITHOUT_SELECTION_SYSTEM: &'static str = "あなたは日本語の音声入力編集者です。音声指示だけを根拠に、ユーザーがそのまま貼り付けられる最終本文を作ります。出力は最終本文のみ。前置き、説明、引用符、ラベルは出しません。";

pub const ASK_WITHOUT_SELECTION_USER: &'static str = "{{dictionary_section}}\n\n選択中テキストは取得できませんでした。\n\n音声指示の文字起こし:\n{{transcript}}\n\n要件:\n- 音声指示だけに基づいて最終本文を作る。\n- 選択されていない文章、過去のクリップボード、過去の会話内容を推測して混ぜない。\n- 辞書の優先表記を必ず尊重する。\n- 内容を勝手に増やさない。";

pub const ASK_WITH_SELECTION_SYSTEM: &'static str = "あなたは日本語の文章編集者です。選択中テキストを、音声指示に従って書き換えます。出力は置換後の本文のみ。前置き、説明、引用符、ラベルは出しません。";

pub const ASK_WITH_SELECTION_USER: &'static str = "{{dictionary_section}}\n\n選択中テキスト:\n{{selected_text}}\n\n音声指示の文字起こし:\n{{transcript}}\n\n要件:\n- 音声指示に従って選択中テキストを書き換える。\n- 指示が曖昧な場合は、選択中テキストの意味を保ったまま自然に整える。\n- 辞書の優先表記を必ず尊重する。\n- 出力は置換する本文のみ。";

pub const DICTIONARY_CONTEXT_BLOCK_TOKEN: &'static str = "{{dictionary_context_block}}";

pub const DICTIONARY_SECTION_TOKEN: &'static str = "{{dictionary_section}}";

pub const SELECTED_TEXT_TOKEN: &'static str = "{{selected_text}}";

pub const TRANSCRIPT_TOKEN: &'static str = "{{transcript}}";

/// The placeholders are non-empty.
pub proof fn lemma_tokens_nonempty()
    ensures
        DICTIONARY_CONTEXT_BLOCK_TOKEN@.len() > 0,
        DICTIONARY_SECTION_TOKEN@.len() > 0,
        SELECTED_TEXT_TOKEN@.len() > 0,
        TRANSCRIPT_TOKEN@.len() > 0,
{
    reveal_strlit("{{dictionary_context_block}}");
    reveal_strlit("{{dictionary_section}}");
    reveal_strlit("{{selected_text}}");
    reveal_strlit("{{transcript}}");
}

/// A catalog entry with exactly these fields.
pub open spec fn catalog_item_is(
    item: PromptCatalogItem,
    key: &str,
    label: &str,
    rows: u8,
    required: Seq<Seq<char>>,
    default_text: &str,
) -> bool {
    &&& item.key@ == key@
    &&& item.label@ == label@
    &&& item.rows == rows
    &&& sviews(item.required@) == required
    &&& item.default_text@ == default_text@
}

/// The prompt catalog: every editable prompt, with its placeholders and default text.
pub open spec fn is_prompt_catalog(items: Seq<PromptCatalogItem>) -> bool {
    &&& items.len() == 11
    &&& catalog_item_is(items[0], "translateEnToJa", "翻訳: 英語 → 日本語", 5, seq![], TRANSLATE_EN_TO_JA)
    &&& catalog_item_is(items[1], "translateJaToEn", "翻訳: 日本語 → 英語", 5, seq![], TRANSLATE_JA_TO_EN)
    &&& catalog_item_is(items[2], "openaiTranscription", "OpenAI文字起こし", 3, seq![], OPENAI_TRANSCRIPTION)
    &&& catalog_item_is(items[3], "geminiAudioSystem", "Gemini音声: system", 2, seq![], GEMINI_AUDIO_SYSTEM)
    &&& catalog_item_is(items[4], "geminiAudioUser", "Gemini音声: user", 3, seq![], GEMINI_AUDIO_USER)
    &&& catalog_item_is(items[5], "dictationSystem", "音声入力整形: system", 3, seq![], DICTATION_SYSTEM)
    &&& catalog_item_is(items[6], "dictationUser", "音声入力整形: user", 8, seq![TRANSCRIPT_TOKEN@], DICTATION_USER)
    &&& catalog_item_is(items[7], "askWithoutSelectionSystem", "Ask（選択なし）: system", 3, seq![], ASK_WITHOUT_SELECTION_SYSTEM)
    &&& catalog_item_is(items[8], "askWithoutSelectionUser", "Ask（選択なし）: user", 8, seq![TRANSCRIPT_TOKEN@], ASK_WITHOUT_SELECTION_USER)
    &&& catalog_item_is(items[9], "askWithSelectionSystem", "Ask（選択あり）: system", 3, seq![], ASK_WITH_SELECTION_SYSTEM)
    &&& catalog_item_is(items[10], "askWithSelectionUser", "Ask（選択あり）: user", 8, seq![SELECTED_TEXT_TOKEN@, TRANSCRIPT_TOKEN@], ASK_WITH_SELECTION_USER)
}

fn catalog_item(key: &str, label: &str, rows: u8, required: Vec<String>, default_text: &str) -> (r:
    PromptCatalogItem)
    ensures
        catalog_item_is(r, key, label, rows, sviews(required@), default_text),
{
    PromptCatalogItem {
        key: owned(key),
        label: owned(label),
        rows,
        required,
        default_text: owned(default_text),
    }
}

fn no_tokens() -> (r: Vec<String>)
    ensures
        sviews(r@) == Seq::<Seq<char>>::empty(),
{
    let r: Vec<String> = Vec::new();
    assert(sviews(r@) =~= Seq::<Seq<char>>::empty());
    r
}

fn transcript_only() -> (r: Vec<String>)
    ensures
        sviews(r@) == seq![TRANSCRIPT_TOKEN@],
{
    let r = vec![owned(TRANSCRIPT_TOKEN)];
    assert(sviews(r@) =~= seq![TRANSCRIPT_TOKEN@]);
    r
}

/// Every prompt the settings screen lets the user edit.
pub fn catalog() -> (r: Vec<PromptCatalogItem>)
    ensures
        is_prompt_catalog(r@),
{
    let both = vec![owned(SELECTED_TEXT_TOKEN), owned(TRANSCRIPT_TOKEN)];
    assert(sviews(both@) =~= seq![SELECTED_TEXT_TOKEN@, TRANSCRIPT_TOKEN@]);
    vec![
        catalog_item("translateEnToJa", "翻訳: 英語 → 日本語", 5, no_tokens(), TRANSLATE_EN_TO_JA),
        catalog_item("translateJaToEn", "翻訳: 日本語 → 英語", 5, no_tokens(), TRANSLATE_JA_TO_EN),
        catalog_item("openaiTranscription", "OpenAI文字起こし", 3, no_tokens(), OPENAI_TRANSCRIPTION),
        catalog_item("geminiAudioSystem", "Gemini音声: system", 2, no_tokens(), GEMINI_AUDIO_SYSTEM),
        catalog_item("geminiAudioUser", "Gemini音声: user", 3, no_tokens(), GEMINI_AUDIO_USER),
        catalog_item("dictationSystem", "音声入力整形: system", 3, no_tokens(), DICTATION_SYSTEM),
        catalog_item("dictationUser", "音声入力整形: user", 8, transcript_only(), DICTATION_USER),
        catalog_item(
            "askWithoutSelectionSystem",
            "Ask（選択なし）: system",
            3,
            no_tokens(),
            ASK_WITHOUT_SELECTION_SYSTEM,
        ),
        catalog_item(
            "askWithoutSelectionUser",
            "Ask（選択なし）: user",
            8,
            transcript_only(),
            ASK_WITHOUT_SELECTION_USER,
        ),
        catalog_item(
            "askWithSelectionSystem",
            "Ask（選択あり）: system",
            3,
            no_tokens(),
            ASK_WITH_SELECTION_SYSTEM,
        ),
        catalog_item("askWithSelectionUser", "Ask（選択あり）: user", 8, both, ASK_WITH_SELECTION_USER),
    ]
}

/// The message for a template that lacks a required placeholder.
pub open spec fn missing_token_message(label: Seq<char>, token: Seq<char>) -> Seq<char> {
    label + "には "@ + token + " を含めてください。"@
}

/// The first required placeholder that an override lacks, as an error message.
pub open spec fn required_error(label: Seq<char>, template: Option<String>, required: Seq<Seq<char>>) -> Option<Seq<char>>
    decreases required.len(),
{
    match template {
        None => None,
        Some(t) => if required.len() == 0 {
            None
        } else if !contains(t@, required[0]) {
            Some(missing_token_message(label, required[0]))
        } else {
            required_error(label, template, required.drop_first())
        },
    }
}

pub open spec fn dictation_user_label() -> Seq<char> {
    "音声入力のユーザープロンプト"@
}

pub open spec fn ask_without_selection_user_label() -> Seq<char> {
    "選択なしAskのユーザープロンプト"@
}

pub open spec fn ask_with_selection_user_label() -> Seq<char> {
    "選択ありAskのユーザープロンプト"@
}

/// The error `validate_overrides` reports, if any.
pub open spec fn overrides_error(o: PromptOverrides) -> Option<Seq<char>> {
    match required_error(dictation_user_label(), o.dictation_user, seq![TRANSCRIPT_TOKEN@]) {
        Some(e) => Some(e),
        None => match required_error(
            ask_without_selection_user_label(),
            o.ask_without_selection_user,
            seq![TRANSCRIPT_TOKEN@],
        ) {
            Some(e) => Some(e),
            None => required_error(
                ask_with_selection_user_label(),
                o.ask_with_selection_user,
                seq![SELECTED_TEXT_TOKEN@, TRANSCRIPT_TOKEN@],
            ),
        },
    }
}

fn missing_token_error(label: &str, token: &str) -> (r: String)
    ensures
        r@ == missing_token_message(label@, token@),
{
    let mut m = chars_of(label);
    crate::text::append_str_chars(&mut m, "には ");
    crate::text::append_str_chars(&mut m, token);
    crate::text::append_str_chars(&mut m, " を含めてください。");
    assert(m@ =~= missing_token_message(label@, token@));
    string_from_chars(&m)
}

fn validate_one(label: &str, template: &Option<String>, token: &str) -> (r: Result<(), String>)
    ensures
        crate::settings::result_matches(r, required_error(label@, *template, seq![token@])),
{
    match template {
        None => {
            assert(*template is None);
            assert(required_error(label@, *template, seq![token@]) is None);
            Ok(())
        },
        Some(t) => {
            proof {
                assert(seq![token@].drop_first() =~= Seq::<Seq<char>>::empty());
                assert(required_error(label@, *template, Seq::<Seq<char>>::empty()) is None);
            }
            if !contains_str(t.as_str(), token) {
                Err(missing_token_error(label, token))
            } else {
                Ok(())
            }
        },
    }
}

fn validate_two(label: &str, template: &Option<String>, first: &str, second: &str) -> (r: Result<
    (),
    String,
>)
    ensures
        crate::settings::result_matches(r, required_error(label@, *template, seq![first@, second@])),
{
    match template {
        None => {
            assert(*template is None);
            assert(required_error(label@, *template, seq![first@, second@]) is None);
            Ok(())
        },
        Some(t) => {
            proof {
                assert(seq![first@, second@].drop_first() =~= seq![second@]);
                assert(seq![second@].drop_first() =~= Seq::<Seq<char>>::empty());
                assert(required_error(label@, *template, Seq::<Seq<char>>::empty()) is None);
                assert(required_error(label@, *template, seq![second@]) == (if !contains(t@, second@) {
                    Some(missing_token_message(label@, second@))
                } else {
                    None
                }));
            }
            if !contains_str(t.as_str(), first) {
                Err(missing_token_error(label, first))
            } else if !contains_str(t.as_str(), second) {
                Err(missing_token_error(label, second))
            } else {
                Ok(())
            }
        },
    }
}

/// Checks that each user-prompt override keeps the placeholders it needs.
pub fn validate_overrides(overrides: &PromptOverrides) -> (r: Result<(), String>)
    ensures
        crate::settings::result_matches(r, overrides_error(*overrides)),
{
    match validate_one("音声入力のユーザープロンプト", &overrides.dictation_user, TRANSCRIPT_TOKEN) {
        Ok(()) => {},
        Err(e) => {
            return Err(e);
        },
    }
    match validate_one(
        "選択なしAskのユーザープロンプト",
        &overrides.ask_without_selection_user,
        TRANSCRIPT_TOKEN,
    ) {
        Ok(()) => {},
        Err(e) => {
            return Err(e);
        },
    }
    validate_two(
        "選択ありAskのユーザープロンプト",
        &overrides.ask_with_selection_user,
        SELECTED_TEXT_TOKEN,
        TRANSCRIPT_TOKEN,
    )
}

/// An override that is set and not blank, else the built-in text.
pub open spec fn template_or_default(o: Option<String>, default_text: Seq<char>) -> Seq<char> {
    match o {
        Some(v) => if !is_blank(v@) {
            v@
        } else {
            default_text
        },
        None => default_text,
    }
}

fn template_or_default_exec(o: &Option<String>, default_text: &str) -> (r: String)
    ensures
        r@ == template_or_default(*o, default_text@),
{
    match o {
        Some(v) => if !is_blank_str(v.as_str()) {
            v.clone()
        } else {
            owned(default_text)
        },
        None => owned(default_text),
    }
}

/// The system prompt that turns `source` text into `target` text.
pub open spec fn translation_prompt(o: PromptOverrides, source: UiLanguage, target: UiLanguage) -> Seq<char> {
    if source == UiLanguage::Ja && target == UiLanguage::En {
        template_or_default(o.translate_ja_to_en, TRANSLATE_JA_TO_EN@)
    } else {
        template_or_default(o.translate_en_to_ja, TRANSLATE_EN_TO_JA@)
    }
}

/// The system prompt that turns `source` text into `target` text.
pub fn translation_system_prompt(overrides: &PromptOverrides, source: UiLanguage, target: UiLanguage) -> (r: String)
    ensures
        r@ == translation_prompt(*overrides, source, target),
{
    match (source, target) {
        (UiLanguage::Ja, UiLanguage::En) => template_or_default_exec(&overrides.translate_ja_to_en, TRANSLATE_JA_TO_EN),
        _ => template_or_default_exec(&overrides.translate_en_to_ja, TRANSLATE_EN_TO_JA),
    }
}

/// The dictionary block appended to transcription prompts: empty for a blank dictionary.
pub open spec fn dictionary_context_block(ctx: Seq<char>) -> Seq<char> {
    if is_blank(ctx) {
        Seq::empty()
    } else {
        "\n優先表記:\n"@ + ctx
    }
}

fn dictionary_context_block_exec(ctx: &str) -> (r: String)
    ensures
        r@ == dictionary_context_block(ctx@),
{
    if is_blank_str(ctx) {
        String::new()
    } else {
        let mut m = chars_of("\n優先表記:\n");
        crate::text::append_str_chars(&mut m, ctx);
        string_from_chars(&m)
    }
}

/// The prompt sent with an OpenAI transcription request.
pub fn openai_transcription_prompt(overrides: &PromptOverrides, dictionary_context: &str) -> (r: String)
    ensures
        r@ == replace_all(
            template_or_default(overrides.openai_transcription, OPENAI_TRANSCRIPTION@),
            DICTIONARY_CONTEXT_BLOCK_TOKEN@,
            dictionary_context_block(dictionary_context@),
        ),
{
    proof {
        lemma_tokens_nonempty();
    }
    let block = dictionary_context_block_exec(dictionary_context);
    let template = template_or_default_exec(&overrides.openai_transcription, OPENAI_TRANSCRIPTION);
    replace_str(template.as_str(), DICTIONARY_CONTEXT_BLOCK_TOKEN, block.as_str())
}

/// The system prompt of a Gemini transcription request.
pub fn gemini_audio_system(overrides: &PromptOverrides) -> (r: String)
    ensures
        r@ == template_or_default(overrides.gemini_audio_system, GEMINI_AUDIO_SYSTEM@),
{
    template_or_default_exec(&overrides.gemini_audio_system, GEMINI_AUDIO_SYSTEM)
}

/// The user prompt of a Gemini transcription request.
pub fn gemini_audio_user(overrides: &PromptOverrides, dictionary_context: &str) -> (r: String)
    ensures
        r@ == replace_all(
            template_or_default(overrides.gemini_audio_user, GEMINI_AUDIO_USER@),
            DICTIONARY_CONTEXT_BLOCK_TOKEN@,
            dictionary_context_block(dictionary_context@),
        ),
{
    proof {
        lemma_tokens_nonempty();
    }
    let block = dictionary_context_block_exec(dictionary_context);
    let template = template_or_default_exec(&overrides.gemini_audio_user, GEMINI_AUDIO_USER);
    replace_str(template.as_str(), DICTIONARY_CONTEXT_BLOCK_TOKEN, block.as_str())
}

/// The system prompt that finalizes a dictation.
pub fn dictation_system(overrides: &PromptOverrides) -> (r: String)
    ensures
        r@ == template_or_default(overrides.dictation_system, DICTATION_SYSTEM@),
{
    template_or_default_exec(&overrides.dictation_system, DICTATION_SYSTEM)
}

/// A template with the dictionary section and then the transcript filled in.
pub open spec fn render_section_transcript(template: Seq<char>, section: Seq<char>, transcript: Seq<char>) -> Seq<char> {
    replace_all(replace_all(template, DICTIONARY_SECTION_TOKEN@, section), TRANSCRIPT_TOKEN@, transcript)
}

fn render_section_transcript_exec(template: &str, section: &str, transcript: &str) -> (r: String)
    ensures
        r@ == render_section_transcript(template@, section@, transcript@),
{
    proof {
        lemma_tokens_nonempty();
    }
    let a = replace_str(template, DICTIONARY_SECTION_TOKEN, section);
    replace_str(a.as_str(), TRANSCRIPT_TOKEN, transcript)
}

/// The user prompt that finalizes a dictation.
pub fn dictation_user(overrides: &PromptOverrides, dictionary_section: &str, transcript: &str) -> (r: String)
    ensures
        r@ == render_section_transcript(
            template_or_default(overrides.dictation_user, DICTATION_USER@),
            dictionary_section@,
            transcript@,
        ),
{
    let template = template_or_default_exec(&overrides.dictation_user, DICTATION_USER);
    render_section_transcript_exec(template.as_str(), dictionary_section, transcript)
}

/// The system prompt of a voice instruction without selected text.
pub fn ask_without_selection_system(overrides: &PromptOverrides) -> (r: String)
    ensures
        r@ == template_or_default(overrides.ask_without_selection_system, ASK_WITHOUT_SELECTION_SYSTEM@),
{
    template_or_default_exec(&overrides.ask_without_selection_system, ASK_WITHOUT_SELECTION_SYSTEM)
}

/// The user prompt of a voice instruction without selected text.
pub fn ask_without_selection_user(overrides: &PromptOverrides, dictionary_section: &str, transcript: &str) -> (r: String)
    ensures
        r@ == render_section_transcript(
            template_or_default(overrides.ask_without_selection_user, ASK_WITHOUT_SELECTION_USER@),
            dictionary_section@,
            transcript@,
        ),
{
    let template = template_or_default_exec(&overrides.ask_without_selection_user, ASK_WITHOUT_SELECTION_USER);
    render_section_transcript_exec(template.as_str(), dictionary_section, transcript)
}

/// The system prompt of a voice instruction on selected text.
pub fn ask_with_selection_system(overrides: &PromptOverrides) -> (r: String)
    ensures
        r@ == template_or_default(overrides.ask_with_selection_system, ASK_WITH_SELECTION_SYSTEM@),
{
    template_or_default_exec(&overrides.ask_with_selection_system, ASK_WITH_SELECTION_SYSTEM)
}

/// The user prompt of a voice instruction on selected text: the dictionary
/// section, then the selected text, then the transcript are filled in.
pub fn ask_with_selection_user(
    overrides: &PromptOverrides,
    dictionary_section: &str,
    selected_text: &str,
    transcript: &str,
) -> (r: String)
    ensures
        r@ == replace_all(
            replace_all(
                replace_all(
                    template_or_default(overrides.ask_with_selection_user, ASK_WITH_SELECTION_USER@),
                    DICTIONARY_SECTION_TOKEN@,
                    dictionary_section@,
                ),
                SELECTED_TEXT_TOKEN@,
                selected_text@,
            ),
            TRANSCRIPT_TOKEN@,
            transcript@,
        ),
{
    proof {
        lemma_tokens_nonempty();
    }
    let template = template_or_default_exec(&overrides.ask_with_selection_user, ASK_WITH_SELECTION_USER);
    let a = replace_str(template.as_str(), DICTIONARY_SECTION_TOKEN, dictionary_section);
    let b = replace_str(a.as_str(), SELECTED_TEXT_TOKEN, selected_text);
    replace_str(b.as_str(), TRANSCRIPT_TOKEN, transcript)
}

/// The translation prompt follows the direction of the translation: English
/// text is translated into Japanese with the English-to-Japanese prompt, and
/// Japanese text into English with the Japanese-to-English one, each replaced
/// by its override when that is set and not blank. The built-in
/// English-to-Japanese prompt asks for natural Japanese, and the built-in
/// Japanese-to-English prompt for natural English.
pub proof fn lemma_translation_prompt_direction(o: PromptOverrides)
    ensures
        translation_prompt(o, UiLanguage::En, UiLanguage::Ja) == match o.translate_en_to_ja {
            Some(v) => if is_blank(v@) {
                TRANSLATE_EN_TO_JA@
            } else {
                v@
            },
            None => TRANSLATE_EN_TO_JA@,
        },
        translation_prompt(o, UiLanguage::Ja, UiLanguage::En) == match o.translate_ja_to_en {
            Some(v) => if is_blank(v@) {
                TRANSLATE_JA_TO_EN@
            } else {
                v@
            },
            None => TRANSLATE_JA_TO_EN@,
        },
        crate::text::contains(TRANSLATE_EN_TO_JA@, "自然な日本語に翻訳"@),
        crate::text::contains(TRANSLATE_JA_TO_EN@, "into natural English"@),
{
    reveal_strlit("あなたはプロの翻訳家であり、ネイティブスピーカーです。入力された英語のテキストを自然な日本語に翻訳してください。\n\n出力は翻訳文のみとし、見出し・ラベル（「翻訳」など）・前置き・解説・ニュアンス説明・別の表現案・箇条書きは一切出力しないでください。段落が必要な場合は空行で区切ってよい。");
    reveal_strlit("You are a professional translator and native speaker. Translate the user's Japanese input into natural English.\n\nOutput only the translation. Do not output headings, labels (such as \"Translation\"), preambles, explanations, nuance notes, alternative phrasings, or bullet points. Use a blank line between paragraphs if needed.");
    reveal_strlit("自然な日本語に翻訳");
    reveal_strlit("into natural English");
    assert(TRANSLATE_EN_TO_JA@.subrange(40, 49) =~= "自然な日本語に翻訳"@);
    assert(crate::text::occurs_at(TRANSLATE_EN_TO_JA@, "自然な日本語に翻訳"@, 40));
    assert(TRANSLATE_JA_TO_EN@.subrange(90, 110) =~= "into natural English"@);
    assert(crate::text::occurs_at(TRANSLATE_JA_TO_EN@, "into natural English"@, 90));
}

} // verus!
