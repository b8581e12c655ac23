use enja::learning::{
    advance_dictionary_learning_quiescence, learned_correction_from_values,
    value_without_placeholder, DictionaryLearningQuiescence, DictionaryLearningQuiescenceStep,
    DICTIONARY_LEARNING_MAX_WATCH_MS, DICTIONARY_LEARNING_POLL_INTERVAL_MS,
    DICTIONARY_LEARNING_QUIET_MS,
};
use enja::text_diff::TextRange;

fn step(state: &mut DictionaryLearningQuiescence, value: &str) -> DictionaryLearningQuiescenceStep {
    advance_dictionary_learning_quiescence(
        state,
        value,
        DICTIONARY_LEARNING_POLL_INTERVAL_MS,
        DICTIONARY_LEARNING_QUIET_MS,
        DICTIONARY_LEARNING_MAX_WATCH_MS,
    )
}

#[test]
fn dictionary_learning_quiescence_waits_while_value_changes() {
    let mut state = DictionaryLearningQuiescence::new("タイプレス");

    for value in ["t", "ty", "typ", "type", "typel"] {
        assert_eq!(step(&mut state, value), DictionaryLearningQuiescenceStep::Continue);
    }
}

#[test]
fn dictionary_learning_quiescence_requires_quiet_period() {
    let mut state = DictionaryLearningQuiescence::new("タイプレス");
    let stable_polls = DICTIONARY_LEARNING_QUIET_MS / DICTIONARY_LEARNING_POLL_INTERVAL_MS;

    for _ in 0..stable_polls {
        assert_eq!(step(&mut state, "Typeless"), DictionaryLearningQuiescenceStep::Continue);
    }
    assert_eq!(step(&mut state, "Typeless"), DictionaryLearningQuiescenceStep::Ready);
}

#[test]
fn dictionary_learning_quiescence_ignores_baseline_value() {
    let mut state = DictionaryLearningQuiescence::new("タイプレス");

    for _ in 0..10 {
        assert_eq!(step(&mut state, "タイプレス"), DictionaryLearningQuiescenceStep::Continue);
    }
}

#[test]
fn dictionary_learning_quiescence_can_recover_after_ineligible_candidate() {
    let mut state = DictionaryLearningQuiescence::new("タイプレス");
    let stable_polls = DICTIONARY_LEARNING_QUIET_MS / DICTIONARY_LEARNING_POLL_INTERVAL_MS;

    for _ in 0..stable_polls {
        assert_eq!(step(&mut state, "T"), DictionaryLearningQuiescenceStep::Continue);
    }
    assert_eq!(step(&mut state, "T"), DictionaryLearningQuiescenceStep::Ready);
    assert_eq!(step(&mut state, "T"), DictionaryLearningQuiescenceStep::Continue);

    for _ in 0..stable_polls {
        assert_eq!(step(&mut state, "Typeless"), DictionaryLearningQuiescenceStep::Continue);
    }
    assert_eq!(step(&mut state, "Typeless"), DictionaryLearningQuiescenceStep::Ready);
}

#[test]
fn dictionary_learning_quiescence_expires_after_max_watch() {
    let mut state = DictionaryLearningQuiescence::new("タイプレス");
    let polls = DICTIONARY_LEARNING_MAX_WATCH_MS / DICTIONARY_LEARNING_POLL_INTERVAL_MS + 1;
    let mut last = DictionaryLearningQuiescenceStep::Continue;
    for i in 0..polls {
        let value = if i % 2 == 0 { "a" } else { "b" };
        last = step(&mut state, value);
    }
    assert_eq!(last, DictionaryLearningQuiescenceStep::Expired);
}

#[test]
fn learned_correction_uses_changes_inside_inserted_range() {
    let inserted_range = TextRange {
        location: 3,
        length: "タイプレスを使う".encode_utf16().count(),
    };

    let correction = learned_correction_from_values(
        "今日はタイプレスを使う",
        "今日はTypelessを使う",
        inserted_range,
    )
    .expect("correction");

    assert_eq!(correction, ("タイプレス".to_string(), "Typeless".to_string()));
}

#[test]
fn learned_correction_ignores_changes_outside_inserted_range() {
    let inserted_range = TextRange {
        location: 3,
        length: "タイプレス".encode_utf16().count(),
    };

    let correction = learned_correction_from_values(
        "今日はタイプレス。明日も。",
        "今日はタイプレス。昨日も。",
        inserted_range,
    );

    assert!(correction.is_none());
}

#[test]
fn learned_correction_ignores_single_character_edits() {
    let inserted_range = TextRange {
        location: 0,
        length: "hello".encode_utf16().count(),
    };

    let correction = learned_correction_from_values("hello", "Hello", inserted_range);

    assert!(correction.is_none());
}

#[test]
fn learned_correction_accepts_multi_character_terms() {
    let inserted_range = TextRange {
        location: 0,
        length: "タイプレス".encode_utf16().count(),
    };

    let correction =
        learned_correction_from_values("タイプレス", "Typeless", inserted_range).expect("correction");

    assert_eq!(correction, ("タイプレス".to_string(), "Typeless".to_string()));
}

#[test]
fn learned_correction_ignores_sentence_like_values() {
    let inserted = "皆さん、ご飯が美味しいですね！";
    let inserted_range = TextRange {
        location: 0,
        length: inserted.encode_utf16().count(),
    };

    let correction =
        learned_correction_from_values(inserted, "フォローアップの変更を求める", inserted_range);

    assert!(correction.is_none());
}

#[test]
fn placeholder_value_is_treated_as_empty_text() {
    assert_eq!(
        value_without_placeholder(
            "フォローアップの変更を求める".to_string(),
            Some("フォローアップの変更を求める"),
        ),
        ""
    );
}

#[test]
fn learned_correction_ignores_deleted_text_when_placeholder_is_exposed() {
    let inserted = "皆さん、ご飯が美味しいですね！";
    let inserted_range = TextRange {
        location: 0,
        length: inserted.encode_utf16().count(),
    };
    let current = value_without_placeholder(
        "フォローアップの変更を求める".to_string(),
        Some("フォローアップの変更を求める"),
    );

    let correction = learned_correction_from_values(inserted, &current, inserted_range);

    assert!(correction.is_none());
}

#[test]
fn learned_correction_ignores_long_full_insert_rewrites() {
    let inserted = "ご飯が美味しいですね";
    let inserted_range = TextRange {
        location: 0,
        length: inserted.encode_utf16().count(),
    };

    let correction = learned_correction_from_values(inserted, "ランチが最高ですね", inserted_range);

    assert!(correction.is_none());
}

#[test]
fn learned_correction_allows_sentence_local_term_change() {
    let inserted_range = TextRange {
        location: 0,
        length: "今日はタイプレスを使います".encode_utf16().count(),
    };

    let correction = learned_correction_from_values(
        "今日はタイプレスを使います",
        "今日はTypelessを使います",
        inserted_range,
    )
    .expect("correction");

    assert_eq!(correction, ("タイプレス".to_string(), "Typeless".to_string()));
}

#[test]
fn value_without_placeholder_keeps_real_text() {
    assert_eq!(value_without_placeholder("本文".to_string(), Some("ヒント")), "本文");
    assert_eq!(value_without_placeholder("本文".to_string(), None), "本文");
}
