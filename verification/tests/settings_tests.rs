use enja::settings::{
    AppSettings, SettingsStore, ShortcutBinding, ShortcutModifiers, UiLanguage, VoiceModeProfile,
    DEFAULT_VOICE_MODE_ID,
};

#[test]
fn defaults_use_nested_settings_contract() {
    let settings = AppSettings::default();
    assert_eq!(settings.translation.source_language, UiLanguage::En);
    assert_eq!(settings.translation.target_language, UiLanguage::Ja);
    assert_eq!(settings.app.double_tap_threshold_ms, 400);
    assert_eq!(settings.shortcuts.voice_dictation.label, "Fn");
    assert_eq!(settings.voice.active_mode_profile_id, DEFAULT_VOICE_MODE_ID);
    assert_eq!(settings.voice.mode_profiles.len(), 5);
    assert_eq!(settings.voice.mode_profiles[1].id, "speed");
    assert!(!settings.voice.mode_profiles[1].formatting_enabled);
    assert!(
        !settings
            .voice
            .mode_profile_by_id(DEFAULT_VOICE_MODE_ID)
            .expect("default profile")
            .deletable
    );
}

#[test]
fn sanitize_clamps_and_normalizes_nested_values() {
    let mut settings = AppSettings::default();
    settings.translation.target_language = UiLanguage::En;
    settings.voice.max_recording_seconds = 999;
    settings.voice.google_cloud_region = String::new();
    settings.app.double_tap_threshold_ms = 5;
    settings.sanitize();

    assert_eq!(settings.translation.target_language, UiLanguage::Ja);
    assert_eq!(settings.voice.max_recording_seconds, 600);
    assert_eq!(settings.voice.google_cloud_region, "asia-northeast1");
    assert_eq!(settings.app.double_tap_threshold_ms, 100);
}

#[test]
fn sanitize_migrates_legacy_dictation_prompts_into_default_mode() {
    let mut settings = AppSettings::default();
    settings.voice.mode_profiles.clear();
    settings.voice.active_mode_profile_id = String::new();
    settings.prompts.overrides.dictation_system = Some("legacy system".to_string());
    settings.prompts.overrides.dictation_user = Some("legacy {{transcript}}".to_string());

    settings.sanitize();

    let default_profile = settings
        .voice
        .mode_profile_by_id(DEFAULT_VOICE_MODE_ID)
        .expect("default profile");
    assert_eq!(default_profile.system_prompt, "legacy system");
    assert_eq!(default_profile.user_prompt, "legacy {{transcript}}");
    assert_eq!(settings.voice.active_mode_profile_id, DEFAULT_VOICE_MODE_ID);
}

#[test]
fn sanitize_restores_default_mode_and_falls_back_active_mode() {
    let mut settings = AppSettings::default();
    settings.voice.mode_profiles = vec![VoiceModeProfile {
        id: "custom".to_string(),
        name: "Custom".to_string(),
        description: String::new(),
        formatting_enabled: true,
        system_prompt: "system".to_string(),
        user_prompt: "{{transcript}}".to_string(),
        deletable: true,
        order: 0,
        preset_key: None,
        live_transcription_enabled: false,
    }];
    settings.voice.active_mode_profile_id = "missing".to_string();

    settings.sanitize();

    assert!(settings.voice.mode_profile_by_id(DEFAULT_VOICE_MODE_ID).is_some());
    assert_eq!(settings.voice.active_mode_profile_id, DEFAULT_VOICE_MODE_ID);
}

#[test]
fn validate_mode_profiles_requires_transcript_placeholder() {
    let mut settings = AppSettings::default();
    settings.voice.mode_profiles[0].user_prompt = "missing".to_string();

    assert!(settings.voice.validate_mode_profiles().is_err());
}

#[test]
fn validate_mode_profiles_allows_missing_prompt_when_formatting_disabled() {
    let mut settings = AppSettings::default();
    settings.voice.mode_profiles[1].formatting_enabled = false;
    settings.voice.mode_profiles[1].user_prompt = String::new();

    assert!(settings.voice.validate_mode_profiles().is_ok());
}

#[test]
fn shortcut_normalize_does_not_duplicate_modifier_labels() {
    let mut shortcut = ShortcutBinding::from_parts(
        Some(49),
        "space".to_string(),
        "Fn Space".to_string(),
        ShortcutModifiers {
            function: true,
            ..ShortcutModifiers::default()
        },
    );

    shortcut.normalize();
    shortcut.normalize();

    assert_eq!(shortcut.label, "Fn Space");
}

#[test]
fn shortcut_normalize_repairs_existing_duplicated_fn_labels() {
    let mut shortcut = ShortcutBinding {
        key_code: Some(49),
        key: "space".to_string(),
        label: "Fn Fn Fn Space".to_string(),
        modifiers: ShortcutModifiers {
            function: true,
            ..ShortcutModifiers::default()
        },
    };

    shortcut.normalize();

    assert_eq!(shortcut.label, "Fn Space");
}

#[test]
fn sanitize_keeps_active_mode_when_it_exists() {
    let mut settings = AppSettings::default();
    settings.voice.active_mode_profile_id = "speed".to_string();
    settings.sanitize();
    assert_eq!(settings.voice.active_mode_profile_id, "speed");
    assert!(settings.voice.active_mode_profile().is_some());
}

#[test]
fn next_mode_profile_cycles_through_modes() {
    let settings = AppSettings::default();
    let first = settings.voice.mode_profiles[0].id.clone();
    let second = settings.voice.mode_profiles[1].id.clone();
    let last = settings.voice.mode_profiles[4].id.clone();
    assert_eq!(settings.voice.next_mode_profile_id(&first), Some(second));
    assert_eq!(settings.voice.next_mode_profile_id(&last), Some(first));
}

#[test]
fn default_shortcuts_are_valid_and_distinct() {
    let settings = AppSettings::default();
    assert!(settings.validate_shortcuts().is_ok());
    let mut clash = AppSettings::default();
    clash.shortcuts.voice_ask = clash.shortcuts.voice_dictation.clone();
    assert!(clash.validate_shortcuts().is_err());
}

#[test]
fn settings_store_replaces_settings() {
    let mut store = SettingsStore::with_defaults();
    let mut settings = store.get();
    settings.app.double_tap_threshold_ms = 250;
    store.replace(settings);
    assert_eq!(store.get().app.double_tap_threshold_ms, 250);
}

#[test]
fn fn_key_is_recognized() {
    assert!(ShortcutBinding::fn_key().is_fn_key());
    assert!(!ShortcutBinding::fn_space().is_fn_key());
    assert!(ShortcutBinding::fn_space().is_same_shortcut(&ShortcutBinding::fn_space()));
    assert!(!ShortcutBinding::fn_space().is_same_shortcut(&ShortcutBinding::fn_key()));
}

fn plain_profile(id: &str, order: i64, deletable: bool) -> VoiceModeProfile {
    VoiceModeProfile {
        id: id.to_string(),
        name: "Mode".to_string(),
        description: String::new(),
        formatting_enabled: false,
        system_prompt: String::new(),
        user_prompt: String::new(),
        deletable,
        order,
        preset_key: None,
        live_transcription_enabled: true,
    }
}

#[test]
fn repaired_modes_are_numbered_and_keep_an_undeletable_default() {
    let mut settings = AppSettings::default();
    settings.voice.mode_profiles = vec![
        plain_profile(" b ", 9, true),
        plain_profile("", 4, true),
        plain_profile("default", 7, true),
        plain_profile("b", 1, true),
    ];
    settings.voice.active_mode_profile_id = "   ".to_string();

    settings.sanitize();

    let ids: Vec<&str> = settings.voice.mode_profiles.iter().map(|p| p.id.as_str()).collect();
    assert_eq!(ids, vec!["custom-3", "custom-1", "default", "b"]);
    for (i, p) in settings.voice.mode_profiles.iter().enumerate() {
        assert_eq!(p.order, i as i64);
        assert!(!p.id.is_empty());
    }
    let default = settings.voice.mode_profile_by_id(DEFAULT_VOICE_MODE_ID).unwrap();
    assert!(!default.deletable);
    assert_eq!(settings.voice.active_mode_profile_id, DEFAULT_VOICE_MODE_ID);
    assert!(settings.voice.validate_mode_profiles().is_ok());
}

#[test]
fn repaired_modes_only_fail_validation_on_their_contents() {
    let mut settings = AppSettings::default();
    let mut unnamed = plain_profile("x", 1, true);
    unnamed.name = "  ".to_string();
    settings.voice.mode_profiles = vec![unnamed];
    settings.voice.active_mode_profile_id = "gone".to_string();
    settings.sanitize();
    assert_eq!(
        settings.voice.validate_mode_profiles(),
        Err("音声モード名を入力してください。".to_string())
    );
}

#[test]
fn normalizing_twice_keeps_key_and_label() {
    let mut shortcut = ShortcutBinding {
        key_code: Some(35),
        key: "  P ".to_string(),
        label: "ctrl option Page Up".to_string(),
        modifiers: ShortcutModifiers { control: true, option: true, ..ShortcutModifiers::default() },
    };
    shortcut.normalize();
    let once = shortcut.clone();
    shortcut.normalize();
    assert_eq!(shortcut, once);
    assert_eq!(once.key, "p");
    assert_eq!(once.label, "Ctrl Option Page Up");
}

#[test]
fn sanitize_trims_ids_and_keeps_default_preset() {
    let mut settings = AppSettings::default();
    settings.voice.mode_profiles[0].preset_key = None;
    settings.voice.mode_profiles[0].deletable = true;
    settings.voice.mode_profiles[2].id = "  aiPrompt  ".to_string();
    settings.voice.active_mode_profile_id = "aiPrompt".to_string();
    settings.sanitize();
    let default = settings.voice.mode_profile_by_id(DEFAULT_VOICE_MODE_ID).expect("default profile");
    assert_eq!(default.preset_key, Some(enja::settings::VoiceModePresetKey::Default));
    assert!(!default.deletable);
    assert_eq!(settings.voice.mode_profiles[2].id, "aiPrompt");
    assert_eq!(settings.voice.active_mode_profile_id, "aiPrompt");
    for (index, profile) in settings.voice.mode_profiles.iter().enumerate() {
        assert_eq!(profile.order, index as i64);
        assert_eq!(profile.id.trim(), profile.id);
    }
}
