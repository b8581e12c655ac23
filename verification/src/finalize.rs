//! How a transcript becomes the final text: which voice mode or question
//! prompt shapes it, or whether only the dictionary corrections apply.
use vstd::prelude::*;

use crate::dictionary::{
    apply_rules, apply_transcript_corrections, eviews, prompt_lines, prompt_text,
    replacement_rules, DictionaryEntry,
};
use crate::live::VoiceMode;
use crate::settings::{profile_or_default_index, pviews, AppSettings};
use crate::text::{append_chars, chars_of, is_blank, is_blank_str, owned, string_from_chars, trim, trim_str};

verus! {

pub open spec fn empty_dictionary_section() -> Seq<char> {
    "優先表記辞書は空です。"@
}

pub open spec fn dictionary_section_heading() -> Seq<char> {
    "優先表記辞書（該当語だと判断できる場合のみ使用）:\n"@
}

/// The dictionary part of a finalization prompt.
pub open spec fn dictionary_section_text(context: Seq<char>) -> Seq<char> {
    if is_blank(context) {
        empty_dictionary_section()
    } else {
        dictionary_section_heading() + context
    }
}

pub fn dictionary_section(entries: &Vec<DictionaryEntry>) -> (r: String)
    ensures
        r@ == dictionary_section_text(prompt_text(eviews(entries@))),
{
    let context = prompt_lines(entries);
    if is_blank_str(context.as_str()) {
        owned("優先表記辞書は空です。")
    } else {
        let mut v = chars_of("優先表記辞書（該当語だと判断できる場合のみ使用）:\n");
        let c = chars_of(context.as_str());
        append_chars(&mut v, &c);
        string_from_chars(&v)
    }
}

/// How the final text is made.
#[derive(Debug, Clone)]
pub enum FinalizationRoute {
    /// The voice mode does not reformat: the trimmed transcript with the
    /// dictionary corrections is the result.
    Direct { text: String },
    /// The voice mode's prompts reformat the transcript.
    VoiceMode { system_prompt: String, user_template: String },
    /// A spoken question with nothing selected.
    AskWithoutSelection,
    /// A spoken instruction about the selected text.
    AskWithSelection,
}

pub open spec fn missing_mode_message() -> Seq<char> {
    "音声モードが見つかりません。"@
}

/// Dictation uses the session's voice mode (or the fallback one); a question
/// depends on whether text is selected.
pub fn finalization_route(
    settings: &AppSettings,
    entries: &Vec<DictionaryEntry>,
    mode: VoiceMode,
    mode_profile_id: &str,
    selected_text: &str,
    transcript: &str,
) -> (r: Result<FinalizationRoute, String>)
    ensures
        mode == VoiceMode::Dictation ==> match profile_or_default_index(
            pviews(settings.voice.mode_profiles@),
            mode_profile_id@,
        ) {
            None => r matches Err(e) && e@ == missing_mode_message(),
            Some(k) => if !pviews(settings.voice.mode_profiles@)[k].formatting_enabled {
                r matches Ok(FinalizationRoute::Direct { text }) && text@ == apply_rules(
                    trim(transcript@),
                    replacement_rules(eviews(entries@)),
                )
            } else {
                r matches Ok(FinalizationRoute::VoiceMode { system_prompt, user_template })
                    && system_prompt@ == pviews(settings.voice.mode_profiles@)[k].system_prompt
                    && user_template@ == pviews(settings.voice.mode_profiles@)[k].user_prompt
            },
        },
        mode == VoiceMode::Ask && is_blank(selected_text@) ==> r matches Ok(
            FinalizationRoute::AskWithoutSelection,
        ),
        mode == VoiceMode::Ask && !is_blank(selected_text@) ==> r matches Ok(
            FinalizationRoute::AskWithSelection,
        ),
{
    if mode == VoiceMode::Ask {
        if is_blank_str(selected_text) {
            return Ok(FinalizationRoute::AskWithoutSelection);
        }
        return Ok(FinalizationRoute::AskWithSelection);
    }
    match settings.voice.mode_profile_or_default(mode_profile_id) {
        None => Err(owned("音声モードが見つかりません。")),
        Some(profile) => {
            if !profile.formatting_enabled {
                let trimmed = trim_str(transcript);
                Ok(FinalizationRoute::Direct { text: apply_transcript_corrections(trimmed.as_str(), entries) })
            } else {
                Ok(
                    FinalizationRoute::VoiceMode {
                        system_prompt: profile.system_prompt.clone(),
                        user_template: profile.user_prompt.clone(),
                    },
                )
            }
        },
    }
}

} // verus!
