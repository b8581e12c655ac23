use enja::token_cache::{GoogleTokenCache, GOOGLE_TOKEN_TTL_MS};

#[test]
fn a_stored_token_is_reused_for_fifty_minutes() {
    let mut cache = GoogleTokenCache::new();
    assert_eq!(cache.lookup("project-a", 0), None);
    let (token, details) = cache.store(
        "project-a".to_string(),
        "ya29.token".to_string(),
        vec!["ADCで認証しました。".to_string()],
        1_000,
    );
    assert_eq!(token, "ya29.token");
    assert_eq!(details, vec!["ADCで認証しました。".to_string()]);
    assert_eq!(GOOGLE_TOKEN_TTL_MS, 50 * 60 * 1000);
    assert_eq!(
        cache.lookup("project-a", 1_000 + GOOGLE_TOKEN_TTL_MS - 1),
        Some(("ya29.token".to_string(), vec!["ADCで認証しました。".to_string()]))
    );
    assert_eq!(cache.lookup("project-a", 1_000 + GOOGLE_TOKEN_TTL_MS), None);
    assert_eq!(cache.lookup("project-b", 2_000), None);
}

#[test]
fn a_new_token_replaces_the_old_one() {
    let mut cache = GoogleTokenCache::new();
    cache.store("a".to_string(), "one".to_string(), vec![], 0);
    cache.store("b".to_string(), "two".to_string(), vec![], 10);
    assert_eq!(cache.lookup("a", 20), None);
    assert_eq!(cache.lookup("b", 20), Some(("two".to_string(), vec![])));
    cache.store("c".to_string(), "three".to_string(), vec![], u64::MAX - 5);
    assert_eq!(cache.lookup("c", u64::MAX - 1), Some(("three".to_string(), vec![])));
}
