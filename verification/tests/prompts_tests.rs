use enja::prompts::{catalog, dictation_user, validate_overrides};
use enja::settings::PromptOverrides;

#[test]
fn renders_dictation_prompt() {
    let out = dictation_user(&PromptOverrides::default(), "優先表記辞書は空です。", "テストです");
    assert!(out.contains("優先表記辞書は空です。"));
    assert!(out.contains("テストです"));
}

#[test]
fn rejects_missing_required_placeholder() {
    let overrides = PromptOverrides {
        ask_with_selection_user: Some("{{transcript}}だけ".to_string()),
        ..PromptOverrides::default()
    };
    assert!(validate_overrides(&overrides).is_err());
}

#[test]
fn default_overrides_are_valid() {
    assert!(validate_overrides(&PromptOverrides::default()).is_ok());
}

#[test]
fn catalog_lists_prompts() {
    assert!(!catalog().is_empty());
}
