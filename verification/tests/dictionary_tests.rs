use enja::dictionary::{
    apply_transcript_corrections, create_entry_in_entries, delete_entry_in_entries, enabled_phrases,
    normalize_entry, normalize_loaded_entries, prompt_lines, DictionaryEntryInput,
    undo_learned_correction_in_entries, upsert_learned_correction_in_entries, DictionaryCorrection,
    DictionaryEntry, DictionarySource, LearnedCorrection,
};

fn entry(id: &str, preferred: &str, enabled: bool) -> DictionaryEntry {
    DictionaryEntry {
        id: id.to_string(),
        preferred: preferred.to_string(),
        readings: Vec::new(),
        aliases: Vec::new(),
        corrections: Vec::new(),
        enabled,
        source: DictionarySource::Manual,
        created_at: 1,
        updated_at: 1,
    }
}

#[test]
fn enabled_phrases_deduplicates_and_skips_disabled() {
    let entries = vec![
        entry("1", "岩佐", true),
        entry("2", "岩佐", true),
        entry("3", "長野", false),
    ];

    assert_eq!(enabled_phrases(&entries), vec!["岩佐".to_string()]);
}

#[test]
fn prompt_lines_lists_enabled_preferred() {
    let entries = vec![entry("1", "岩佐", true), entry("2", "長野", false)];
    assert_eq!(prompt_lines(&entries), "- 岩佐");
}

#[test]
fn prompt_lines_lists_aliases_and_corrections() {
    let mut entry = entry("1", "Typeless", true);
    entry.aliases = vec!["タイプレス".to_string()];
    entry.corrections = vec![DictionaryCorrection {
        from: "タイプですか？".to_string(),
        to: "Typelessか".to_string(),
    }];

    let lines = prompt_lines(&vec![normalize_entry(entry)]);

    assert!(lines.contains("Typeless"));
    assert!(lines.contains("タイプレス"));
    assert!(lines.contains("タイプですか？ -> Typelessか"));
}

#[test]
fn apply_transcript_corrections_keeps_aliases_as_hints_without_llm() {
    let mut typeless = entry("1", "Typeless", true);
    typeless.aliases = vec!["タイプレス".to_string()];
    let mut aqua = entry("2", "AquaVoice", true);
    aqua.aliases = vec!["アクアボイス".to_string()];

    let out = apply_transcript_corrections(
        "タイプレスかアクアボイスどっちがいいの？",
        &vec![normalize_entry(typeless), normalize_entry(aqua)],
    );

    assert_eq!(out, "タイプレスかアクアボイスどっちがいいの？");
}

#[test]
fn apply_transcript_corrections_uses_explicit_rules() {
    let mut typeless = entry("1", "Typeless", true);
    typeless.aliases = vec!["タイプです".to_string()];
    typeless.corrections = vec![DictionaryCorrection {
        from: "タイプですか？アクアボイス".to_string(),
        to: "TypelessかAquaVoice".to_string(),
    }];
    let mut aqua = entry("2", "AquaVoice", true);
    aqua.aliases = vec!["アクアボイス".to_string()];

    let out = apply_transcript_corrections(
        "タイプですか？アクアボイスどっちがいいの？",
        &vec![normalize_entry(typeless), normalize_entry(aqua)],
    );

    assert_eq!(out, "TypelessかAquaVoiceどっちがいいの？");
}

#[test]
fn apply_transcript_corrections_skips_disabled_entries() {
    let mut typeless = entry("1", "Typeless", false);
    typeless.aliases = vec!["タイプレス".to_string()];

    let out = apply_transcript_corrections("タイプレス", &vec![normalize_entry(typeless)]);

    assert_eq!(out, "タイプレス");
}

#[test]
fn learned_correction_adds_to_existing_preferred_entry() {
    let mut entries = vec![entry("1", "Typeless", true)];

    let learned = upsert_learned_correction_in_entries(&mut entries, "タイプレス", "Typeless", 2)
        .expect("upsert");

    assert_eq!(
        learned,
        Some(LearnedCorrection {
            entry_id: "1".to_string(),
            from: "タイプレス".to_string(),
            to: "Typeless".to_string(),
        })
    );
    assert_eq!(entries.len(), 1);
    assert_eq!(
        entries[0].corrections,
        vec![DictionaryCorrection {
            from: "タイプレス".to_string(),
            to: "Typeless".to_string(),
        }]
    );
    assert_eq!(entries[0].updated_at, 2);
}

#[test]
fn learned_correction_creates_learned_entry() {
    let mut entries = Vec::new();

    let learned = upsert_learned_correction_in_entries(&mut entries, "タイプレス", "Typeless", 2)
        .expect("upsert");

    assert_eq!(
        learned,
        Some(LearnedCorrection {
            entry_id: "learned-2".to_string(),
            from: "タイプレス".to_string(),
            to: "Typeless".to_string(),
        })
    );
    assert_eq!(entries.len(), 1);
    assert_eq!(entries[0].preferred, "Typeless");
    assert!(matches!(entries[0].source, DictionarySource::Learned));
    assert_eq!(entries[0].corrections[0].from, "タイプレス");
}

#[test]
fn learned_correction_skips_duplicate_from() {
    let mut typeless = entry("1", "Typeless", true);
    typeless.corrections = vec![DictionaryCorrection {
        from: "タイプレス".to_string(),
        to: "Typeless".to_string(),
    }];
    let mut entries = vec![normalize_entry(typeless)];

    let learned = upsert_learned_correction_in_entries(&mut entries, "タイプレス", "Typeless", 2)
        .expect("upsert");

    assert_eq!(learned, None);
    assert_eq!(entries[0].corrections.len(), 1);
}

#[test]
fn undo_learned_correction_removes_matching_rule() {
    let mut entries = vec![entry("1", "Typeless", true)];
    entries[0].corrections = vec![DictionaryCorrection {
        from: "タイプレス".to_string(),
        to: "Typeless".to_string(),
    }];

    let undone = undo_learned_correction_in_entries(&mut entries, "1", "タイプレス", "Typeless", 3);

    assert!(undone);
    assert!(entries[0].corrections.is_empty());
}

#[test]
fn undo_learned_correction_removes_empty_learned_entry() {
    let mut entries = vec![normalize_entry(DictionaryEntry {
        id: "learned-2".to_string(),
        preferred: "Typeless".to_string(),
        readings: Vec::new(),
        aliases: Vec::new(),
        corrections: vec![DictionaryCorrection {
            from: "タイプレス".to_string(),
            to: "Typeless".to_string(),
        }],
        enabled: true,
        source: DictionarySource::Learned,
        created_at: 2,
        updated_at: 2,
    })];

    let undone =
        undo_learned_correction_in_entries(&mut entries, "learned-2", "タイプレス", "Typeless", 3);

    assert!(undone);
    assert!(entries.is_empty());
}

#[test]
fn undo_after_upsert_restores_the_entries() {
    let mut entries = vec![normalize_entry(entry("1", "Typeless", true))];
    let before_len = entries.len();
    let learned = upsert_learned_correction_in_entries(&mut entries, "タイプレス", "Typeless", 5)
        .expect("upsert")
        .expect("learned");
    assert_eq!(entries[0].corrections.len(), 1);

    let undone = undo_learned_correction_in_entries(
        &mut entries,
        &learned.entry_id,
        &learned.from,
        &learned.to,
        6,
    );

    assert!(undone);
    assert_eq!(entries.len(), before_len);
    assert!(entries[0].corrections.is_empty());
}

#[test]
fn undo_of_unknown_entry_changes_nothing() {
    let mut entries = vec![entry("1", "Typeless", true)];

    let undone = undo_learned_correction_in_entries(&mut entries, "2", "a", "b", 9);

    assert!(!undone);
    assert_eq!(entries.len(), 1);
    assert_eq!(entries[0].updated_at, 1);
}

#[test]
fn upsert_ignores_blank_or_identical_values() {
    let mut entries = vec![entry("1", "Typeless", true)];

    assert_eq!(
        upsert_learned_correction_in_entries(&mut entries, "  ", "Typeless", 2).expect("upsert"),
        None
    );
    assert_eq!(
        upsert_learned_correction_in_entries(&mut entries, "same", " same ", 2).expect("upsert"),
        None
    );
    assert!(entries[0].corrections.is_empty());
}

#[test]
fn deleting_a_created_entry_restores_the_dictionary() {
    let mut entries = vec![entry("dict-1", "Enja", true), entry("dict-2", "Tauri", false)];
    let created = create_entry_in_entries(
        &mut entries,
        DictionaryEntryInput {
            preferred: "  Verus ".to_string(),
            aliases: Some(vec!["ヴェルス".to_string()]),
            corrections: None,
            enabled: true,
        },
        42,
    )
    .unwrap();
    assert_eq!(created.id, "dict-42");
    assert_eq!(created.preferred, "Verus");
    assert_eq!(entries.len(), 3);
    delete_entry_in_entries(&mut entries, "dict-42").unwrap();
    let ids: Vec<&str> = entries.iter().map(|e| e.id.as_str()).collect();
    assert_eq!(ids, vec!["dict-1", "dict-2"]);
    assert_eq!(
        delete_entry_in_entries(&mut entries, "dict-42"),
        Err("辞書項目が見つかりません。".to_string())
    );
}

#[test]
fn loading_normalizes_and_drops_entries_without_text() {
    let mut blank = entry("dict-3", "   ", true);
    blank.readings = vec!["よみ".to_string()];
    let mut padded = entry("dict-4", " Enja ", true);
    padded.readings = vec!["えんじゃ".to_string()];
    let loaded = normalize_loaded_entries(&vec![blank, padded]);
    assert_eq!(loaded.len(), 1);
    assert_eq!(loaded[0].id, "dict-4");
    assert_eq!(loaded[0].preferred, "Enja");
    assert!(loaded[0].readings.is_empty());
    assert_eq!(loaded[0].aliases, vec!["えんじゃ".to_string()]);
}

#[test]
fn normalizing_twice_changes_nothing_more() {
    let mut e = entry("dict-9", "  Enja  ", true);
    e.readings = vec![" えんじゃ ".to_string(), "".to_string()];
    e.aliases = vec!["えんじゃ".to_string(), "エンジャ ".to_string()];
    e.corrections = vec![
        DictionaryCorrection { from: " えんじゃ ".to_string(), to: " Enja".to_string() },
        DictionaryCorrection { from: "えんじゃ".to_string(), to: "ENJA".to_string() },
        DictionaryCorrection { from: "same".to_string(), to: "same".to_string() },
    ];
    let once = normalize_entry(e);
    assert_eq!(once.preferred, "Enja");
    assert_eq!(once.aliases, vec!["えんじゃ".to_string(), "エンジャ".to_string()]);
    assert_eq!(
        once.corrections,
        vec![DictionaryCorrection { from: "えんじゃ".to_string(), to: "Enja".to_string() }]
    );
    let twice = normalize_entry(once.clone());
    assert_eq!(twice.preferred, once.preferred);
    assert!(twice.readings.is_empty());
    assert_eq!(twice.aliases, once.aliases);
    assert_eq!(twice.corrections, once.corrections);
}

#[test]
fn corrections_without_entries_or_rules_leave_the_transcript() {
    assert_eq!(apply_transcript_corrections("  タイプレス  ", &Vec::new()), "  タイプレス  ");

    let mut ruled = entry("1", "Typeless", false);
    ruled.corrections = vec![DictionaryCorrection { from: "タイプレス".to_string(), to: "Typeless".to_string() }];
    let mut blank = entry("2", "Voice", true);
    blank.corrections = vec![DictionaryCorrection { from: " ".to_string(), to: "Voice".to_string() }];
    assert_eq!(apply_transcript_corrections("タイプレス", &vec![ruled.clone(), blank]), "タイプレス");

    ruled.enabled = true;
    let enabled_only = vec![ruled.clone()];
    let mut off = entry("3", "Other", false);
    off.corrections = vec![DictionaryCorrection { from: "Typeless".to_string(), to: "Other".to_string() }];
    assert_eq!(
        apply_transcript_corrections("タイプレス", &vec![ruled, off]),
        apply_transcript_corrections("タイプレス", &enabled_only)
    );
}
