use pickle::secrets::{sign_up, SecretStore, SECRET_LENGTH, SEPARATOR};
use pickle::Error;
use securestore::{KeySource, SecretsManager};

fn fresh_store() -> SecretStore {
    SecretStore::new(SecretsManager::new(KeySource::Csprng).expect("a new vault"))
}

fn store_with(records: &[(&str, &str)]) -> SecretStore {
    let mut vault = SecretsManager::new(KeySource::Csprng).expect("a new vault");
    for (keyword, secret) in records {
        vault.set(keyword, *secret);
    }
    SecretStore::new(vault)
}

fn store_with_unreadable(keyword: &str) -> SecretStore {
    let mut vault = SecretsManager::new(KeySource::Csprng).expect("a new vault");
    vault.set(keyword, vec![0xff_u8, 0xfe, 0xfd]);
    SecretStore::new(vault)
}

fn secret_part(key: &str, keyword: &str) -> String {
    assert!(key.starts_with(keyword));
    let rest = &key[keyword.len()..];
    assert!(rest.starts_with(SEPARATOR));
    rest[1..].to_string()
}

#[test]
fn separator_and_secret_length() {
    assert_eq!(SEPARATOR, '-');
    assert_eq!(SECRET_LENGTH, 32);
}

#[test]
fn sign_up_on_a_fresh_store_returns_a_composite_key() {
    let mut store = fresh_store();
    let key = sign_up(&mut store, String::from("bob")).expect("bob is free");
    assert!(key.starts_with("bob-"));
    let secret = secret_part(&key, "bob");
    assert_eq!(secret.chars().count(), 32);
    assert!(secret.chars().all(|c| c.is_ascii_digit() || ('a'..='f').contains(&c)));
    assert_eq!(key.len(), 3 + 1 + 32);
}

#[test]
fn sign_up_records_the_secret_it_returned() {
    let mut store = fresh_store();
    let key = sign_up(&mut store, String::from("bob")).expect("bob is free");
    assert!(store.knows("bob"));
    assert_eq!(store.secret("bob"), Ok(secret_part(&key, "bob")));
}

#[test]
fn second_sign_up_fails_and_leaves_the_secret_unchanged() {
    let mut store = fresh_store();
    let key = sign_up(&mut store, String::from("bob")).expect("bob is free");
    let before = store.secret("bob");
    assert_eq!(sign_up(&mut store, String::from("bob")), Err(Error::UsernameAlreadyExists));
    assert_eq!(store.secret("bob"), before);
    assert_eq!(store.secret("bob"), Ok(secret_part(&key, "bob")));
    assert!(store.is_key_valid(Some(key)));
}

#[test]
fn sign_up_leaves_other_records_alone() {
    let mut store = store_with(&[("alice", "s3cret")]);
    let _ = sign_up(&mut store, String::from("bob")).expect("bob is free");
    assert_eq!(store.secret("alice"), Ok(String::from("s3cret")));
    assert!(store.is_key_valid(Some(String::from("alice-s3cret"))));
}

#[test]
fn sign_up_for_a_taken_keyword_changes_nothing() {
    let mut store = store_with(&[("alice", "s3cret")]);
    assert_eq!(sign_up(&mut store, String::from("alice")), Err(Error::UsernameAlreadyExists));
    assert_eq!(store.secret("alice"), Ok(String::from("s3cret")));
}

#[test]
fn sign_up_for_an_unreadable_record_is_taken_too() {
    let mut store = store_with_unreadable("bin");
    assert_eq!(sign_up(&mut store, String::from("bin")), Err(Error::UsernameAlreadyExists));
    assert_eq!(store.secret("bin"), Err(Error::Unknown));
}

#[test]
fn sign_up_accepts_the_empty_keyword() {
    let mut store = fresh_store();
    let key = sign_up(&mut store, String::new()).expect("the empty keyword is free");
    assert!(key.starts_with('-'));
    assert_eq!(key.chars().count(), 33);
    assert!(store.is_key_valid(Some(key)));
}

#[test]
fn issue_records_the_given_secret() {
    let mut store = fresh_store();
    assert_eq!(store.issue(String::from("bob"), "0123"), Ok(String::from("bob-0123")));
    assert_eq!(store.secret("bob"), Ok(String::from("0123")));
    assert_eq!(store.issue(String::from("bob"), "4567"), Err(Error::UsernameAlreadyExists));
    assert_eq!(store.secret("bob"), Ok(String::from("0123")));
}

#[test]
fn issued_key_is_valid() {
    let mut store = fresh_store();
    let key = sign_up(&mut store, String::from("bob")).expect("bob is free");
    assert!(store.is_key_valid(Some(key)));
}

#[test]
fn flipping_any_single_character_of_the_secret_is_rejected() {
    let mut store = fresh_store();
    let key = sign_up(&mut store, String::from("bob")).expect("bob is free");
    let chars: Vec<char> = key.chars().collect();
    for at in 4..chars.len() {
        let mut flipped = chars.clone();
        flipped[at] = if chars[at] == '0' { '1' } else { '0' };
        let presented: String = flipped.into_iter().collect();
        assert!(!store.is_key_valid(Some(presented)), "flipped at {}", at);
    }
}

#[test]
fn shortened_and_lengthened_secrets_are_rejected() {
    let store = store_with(&[("bob", "abcdef")]);
    assert!(store.is_key_valid(Some(String::from("bob-abcdef"))));
    assert!(!store.is_key_valid(Some(String::from("bob-abcde"))));
    assert!(!store.is_key_valid(Some(String::from("bob-abcdef0"))));
    assert!(!store.is_key_valid(Some(String::from("bob-"))));
    assert!(!store.is_key_valid(Some(String::from("bob-ABCDEF"))));
}

#[test]
fn missing_credential_is_not_authorized() {
    let store = store_with(&[("bob", "abcdef")]);
    assert!(!store.is_key_valid(None));
}

#[test]
fn credential_without_separator_is_not_authorized() {
    let store = store_with(&[("bob", "abcdef")]);
    assert!(!store.is_key_valid(Some(String::from("bobabcdef"))));
    assert!(!store.is_key_valid(Some(String::from("bob"))));
    assert!(!store.is_key_valid(Some(String::new())));
}

#[test]
fn credential_with_unknown_keyword_is_not_authorized() {
    let store = store_with(&[("bob", "abcdef")]);
    assert!(!store.is_key_valid(Some(String::from("alice-abcdef"))));
    assert!(!store.is_key_valid(Some(String::from("-abcdef"))));
    assert!(!store.is_key_valid(Some(String::from("Bob-abcdef"))));
}

#[test]
fn credential_for_an_unreadable_record_is_not_authorized() {
    let store = store_with_unreadable("bin");
    assert!(!store.is_key_valid(Some(String::from("bin-"))));
    assert!(!store.is_key_valid(Some(String::from("bin-\u{fffd}\u{fffd}\u{fffd}"))));
}

#[test]
fn credential_is_split_at_its_first_separator() {
    let store = store_with(&[("bob", "abc-def"), ("a-b", "secret")]);
    assert!(store.is_key_valid(Some(String::from("bob-abc-def"))));
    assert!(!store.is_key_valid(Some(String::from("a-b-secret"))));
}

#[test]
fn keyword_with_a_separator_cannot_use_its_key() {
    let mut store = fresh_store();
    let key = sign_up(&mut store, String::from("a-b")).expect("a-b is free");
    assert!(key.starts_with("a-b-"));
    assert!(!store.is_key_valid(Some(key)));
}

#[test]
fn secret_of_an_unknown_keyword_is_secret_not_found() {
    let store = store_with(&[("bob", "abcdef")]);
    assert_eq!(store.secret("alice"), Err(Error::SecretNotFound));
    assert!(!store.knows("alice"));
}

#[test]
fn secret_of_an_unreadable_record_is_unknown() {
    let store = store_with_unreadable("bin");
    assert_eq!(store.secret("bin"), Err(Error::Unknown));
    assert!(store.knows("bin"));
}

#[test]
fn settle_keeps_a_persisted_sign_up() {
    let mut store = fresh_store();
    let key = sign_up(&mut store, String::from("bob")).expect("bob is free");
    assert_eq!(store.settle("bob", key.clone(), true), Ok(key.clone()));
    assert!(store.is_key_valid(Some(key)));
}

#[test]
fn settle_withdraws_a_sign_up_that_was_not_persisted() {
    let mut store = store_with(&[("alice", "s3cret")]);
    let key = sign_up(&mut store, String::from("bob")).expect("bob is free");
    assert_eq!(store.settle("bob", key.clone(), false), Err(Error::Unknown));
    assert!(!store.knows("bob"));
    assert_eq!(store.secret("bob"), Err(Error::SecretNotFound));
    assert!(!store.is_key_valid(Some(key)));
    assert_eq!(store.secret("alice"), Ok(String::from("s3cret")));
    assert!(sign_up(&mut store, String::from("bob")).is_ok());
}

#[test]
fn vault_gives_the_records_back_to_the_caller() {
    let mut store = fresh_store();
    let key = sign_up(&mut store, String::from("bob")).expect("bob is free");
    assert_eq!(store.vault().get("bob").ok(), Some(secret_part(&key, "bob")));
    let names: Vec<&str> = store.vault().keys().collect();
    assert_eq!(names, vec!["bob"]);
}
