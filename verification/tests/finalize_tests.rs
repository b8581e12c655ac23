use enja::dictionary::{DictionaryCorrection, DictionaryEntry, DictionarySource};
use enja::finalize::{dictionary_section, finalization_route, FinalizationRoute};
use enja::live::VoiceMode;
use enja::settings::AppSettings;

fn corrected_entry() -> DictionaryEntry {
    DictionaryEntry {
        id: "dict-1".to_string(),
        preferred: "Enja".to_string(),
        readings: Vec::new(),
        aliases: Vec::new(),
        corrections: vec![DictionaryCorrection { from: "えんじゃ".to_string(), to: "Enja".to_string() }],
        enabled: true,
        source: DictionarySource::Manual,
        created_at: 1,
        updated_at: 1,
    }
}

#[test]
fn a_mode_without_formatting_only_applies_corrections() {
    let settings = AppSettings::default();
    let route = finalization_route(&settings, &vec![corrected_entry()], VoiceMode::Dictation, "speed", "", "  えんじゃを開く ").unwrap();
    match route {
        FinalizationRoute::Direct { text } => assert_eq!(text, "Enjaを開く"),
        other => panic!("unexpected {other:?}"),
    }
}

#[test]
fn a_formatting_mode_uses_its_prompts() {
    let settings = AppSettings::default();
    let casual = settings.voice.mode_profile_by_id("casual").unwrap().clone();
    match finalization_route(&settings, &vec![], VoiceMode::Dictation, "casual", "", "hi").unwrap() {
        FinalizationRoute::VoiceMode { system_prompt, user_template } => {
            assert_eq!(system_prompt, casual.system_prompt);
            assert_eq!(user_template, casual.user_prompt);
        }
        other => panic!("unexpected {other:?}"),
    }
}

#[test]
fn questions_depend_on_the_selection() {
    let settings = AppSettings::default();
    assert!(matches!(
        finalization_route(&settings, &vec![], VoiceMode::Ask, "", " \n", "要約して").unwrap(),
        FinalizationRoute::AskWithoutSelection
    ));
    assert!(matches!(
        finalization_route(&settings, &vec![], VoiceMode::Ask, "", "本文", "要約して").unwrap(),
        FinalizationRoute::AskWithSelection
    ));
}

#[test]
fn dictation_needs_a_voice_mode() {
    let mut settings = AppSettings::default();
    settings.voice.mode_profiles.clear();
    assert_eq!(
        finalization_route(&settings, &vec![], VoiceMode::Dictation, "default", "", "x").unwrap_err(),
        "音声モードが見つかりません。"
    );
}

#[test]
fn dictionary_section_names_an_empty_dictionary() {
    assert_eq!(dictionary_section(&vec![]), "優先表記辞書は空です。");
    let section = dictionary_section(&vec![corrected_entry()]);
    assert!(section.starts_with("優先表記辞書（該当語だと判断できる場合のみ使用）:\n"));
    assert!(section.contains("Enja"));
}
