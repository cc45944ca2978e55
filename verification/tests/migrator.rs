use replica_store::error::ErrorKind;
use replica_store::migrator::{FirefoxAccount, Migration, MigrationEvent, MigrationStep, ScopedKey};

#[test]
fn migration_without_copy_runs_two_requests() {
    let mut account = FirefoxAccount::new();
    let m = account.migrate_from_session_token("5d0a", "00ff10", "0fA0", false).unwrap();
    assert_eq!(m.step, MigrationStep::Tokens);
    assert_eq!(m.session_token, "5d0a");
    let m = account.continue_migration(m, MigrationEvent::Tokens(Some("refresh".into()))).unwrap().unwrap();
    assert_eq!(m.step, MigrationStep::KeyData);
    assert_eq!(m.k_sync, "AP8Q");
    assert_eq!(m.k_xcs, "D6A");
    assert_eq!(account.refresh_token.as_deref(), Some("refresh"));
    assert!(account.session_token.is_none());
    let done = account.continue_migration(m, MigrationEvent::KeyData(Some(1510726317000))).unwrap();
    assert!(done.is_none());
    assert_eq!(account.session_token.as_deref(), Some("5d0a"));
    assert_eq!(account.scoped_keys.len(), 1);
    let key = &account.scoped_keys[0];
    assert_eq!(key.kty, "oct");
    assert_eq!(key.scope, "https://identity.mozilla.com/apps/oldsync");
    assert_eq!(key.k, "AP8Q");
    assert_eq!(key.kid, "1510726317000-D6A");
}

#[test]
fn migration_with_copy_uses_the_duplicated_session() {
    let mut account = FirefoxAccount::new();
    let m = account.migrate_from_session_token("aa", "00", "01", true).unwrap();
    assert_eq!(m.step, MigrationStep::Duplicate);
    let m = account.continue_migration(m, MigrationEvent::SessionDuplicated("bb".into())).unwrap().unwrap();
    assert_eq!((m.step, m.session_token.as_str()), (MigrationStep::Tokens, "bb"));
    let m = account.continue_migration(m, MigrationEvent::Tokens(None)).unwrap().unwrap();
    assert!(account.refresh_token.is_none());
    account.continue_migration(m, MigrationEvent::KeyData(Some(0))).unwrap();
    assert_eq!(account.session_token.as_deref(), Some("bb"));
    assert_eq!(account.scoped_keys[0].kid, "0-AQ");
}

#[test]
fn an_account_with_a_session_token_does_not_migrate() {
    let mut account = FirefoxAccount::new();
    account.session_token = Some("set".into());
    assert!(matches!(account.migrate_from_session_token("aa", "00", "01", false), Err(ErrorKind::IllegalState)));
}

#[test]
fn keys_that_are_not_hexadecimal_fail_after_the_tokens() {
    let mut account = FirefoxAccount::new();
    for (k_sync, k_xcs) in [("0g", "01"), ("000", "01"), ("00", "é0")] {
        let m = account.migrate_from_session_token("aa", k_sync, k_xcs, false).unwrap();
        let r = account.continue_migration(m, MigrationEvent::Tokens(Some("r".into())));
        assert!(matches!(r, Err(ErrorKind::IllegalState)));
        assert_eq!(account.refresh_token.as_deref(), Some("r"));
        assert!(account.session_token.is_none());
    }
}

#[test]
fn missing_key_access_and_stray_answers_are_illegal() {
    let mut account = FirefoxAccount::new();
    let m = account.migrate_from_session_token("aa", "00", "01", false).unwrap();
    let m = account.continue_migration(m, MigrationEvent::Tokens(None)).unwrap().unwrap();
    assert!(matches!(account.continue_migration(m, MigrationEvent::KeyData(None)), Err(ErrorKind::IllegalState)));
    assert!(account.session_token.is_none() && account.scoped_keys.is_empty());
    let m = account.migrate_from_session_token("aa", "00", "01", true).unwrap();
    assert!(matches!(account.continue_migration(m, MigrationEvent::KeyData(Some(1))), Err(ErrorKind::IllegalState)));
}

#[test]
fn a_new_key_replaces_the_key_of_its_scope() {
    let mut account = FirefoxAccount::new();
    account.scoped_keys.push(ScopedKey { kty: "oct".into(), scope: "other".into(), k: "x".into(), kid: "1".into() });
    account.scoped_keys.push(ScopedKey {
        kty: "oct".into(),
        scope: Migration::key_scope().into(),
        k: "old".into(),
        kid: "1-old".into(),
    });
    let m = account.migrate_from_session_token("aa", "ff", "ff", false).unwrap();
    let m = account.continue_migration(m, MigrationEvent::Tokens(None)).unwrap().unwrap();
    account.continue_migration(m, MigrationEvent::KeyData(Some(2))).unwrap();
    assert_eq!(account.scoped_keys.len(), 2);
    assert_eq!(account.scoped_keys[0].scope, "other");
    assert_eq!(account.scoped_keys[1].k, "_w");
    assert_eq!(account.scoped_keys[1].kid, "2-_w");
    assert_eq!(Migration::token_scopes(), vec!["profile", "https://identity.mozilla.com/apps/oldsync"]);
}
