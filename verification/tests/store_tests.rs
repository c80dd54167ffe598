use people_data::codec::check_password;
use people_data::{
    AuthError, CredentialStore, InsertableUser, Role, TokenStore, User, UserData,
};

const SALT: &str = "0123456789abcdef";

fn data(name: &str, email: &str, password: &str) -> UserData {
    UserData {
        user_name: name.to_string(),
        email: email.to_string(),
        password: password.to_string(),
        role: Role::User,
        validated: false,
    }
}

fn store_with_two() -> CredentialStore {
    let mut store = CredentialStore::new();
    store.create_with(&data("Ada Lovelace", "ada@example.com", "pw-a"), 1, SALT.to_string(), 100).unwrap();
    store.create_with(&data("Grace Hopper", "grace@example.com", "pw-g"), 2, SALT.to_string(), 200).unwrap();
    store
}

#[test]
fn prepare_trims_lowercases_slugs_and_hashes() {
    let u = InsertableUser::prepare(
        &data("  Ada Lovelace ", "  Ada@Example.COM ", " hunter2 "),
        SALT.to_string(),
        42,
    )
    .unwrap();
    assert_eq!(u.user_name, "Ada Lovelace");
    assert_eq!(u.email, "ada@example.com");
    assert_eq!(u.slug, "ada_lovelace");
    assert_eq!(u.salt, SALT);
    assert_eq!(u.created_at, 42);
    assert_eq!(u.role, Role::User);
    assert!(!u.validated);
    assert!(check_password("hunter2", SALT, &u.hash));
    assert!(!check_password(" hunter2 ", SALT, &u.hash));
}

#[test]
fn prepare_refuses_empty_fields_and_short_salt() {
    let bad = [
        data("   ", "ada@example.com", "pw"),
        data("Ada", "   ", "pw"),
        data("Ada", "ada@example.com", "  "),
    ];
    for d in bad.iter() {
        assert_eq!(
            InsertableUser::prepare(d, SALT.to_string(), 0).err(),
            Some(AuthError::InvalidInput)
        );
    }
    assert_eq!(
        InsertableUser::prepare(&data("Ada", "ada@example.com", "pw"), "short".to_string(), 0).err(),
        Some(AuthError::InvalidInput)
    );
}

#[test]
fn from_user_data_mints_a_salt() {
    let u = InsertableUser::from_user_data(&data("Ada", "ada@example.com", "pw")).unwrap();
    assert_eq!(u.salt.chars().count(), 128);
    assert!(check_password("pw", &u.salt, &u.hash));
    assert!(u.created_at > 1_600_000_000);
    assert_eq!(
        InsertableUser::from_user_data(&data("", "ada@example.com", "pw")).err(),
        Some(AuthError::InvalidInput)
    );
    let user = u.into_user(7);
    assert_eq!(user.id, 7);
    assert_eq!(user.slug, "ada");
}

#[test]
fn create_with_stores_and_finds() {
    let store = store_with_two();
    assert_eq!(store.len(), 2);
    let ada = store.find(1).unwrap();
    assert_eq!(ada.email, "ada@example.com");
    assert_eq!(ada.slug, "ada_lovelace");
    assert_eq!(ada.created_at, 100);
    assert_eq!(store.find_from_email(&"grace@example.com".to_string()).unwrap().id, 2);
    assert_eq!(store.find_from_slug(&"grace_hopper".to_string()).unwrap().id, 2);
    assert_eq!(store.find_id_from_slug(&"ada_lovelace".to_string()), Ok(1));
    assert_eq!(store.find_slim_from_email(&"ada@example.com".to_string()).unwrap().slug, "ada_lovelace");
    assert_eq!(store.find_slim_from_slug(&"ada_lovelace".to_string()).unwrap().email, "ada@example.com");
    assert_eq!(store.find_from_user_name(&"Grace Hopper".to_string()).unwrap().slug, "grace_hopper");
}

#[test]
fn missing_users_are_not_found() {
    let store = store_with_two();
    assert_eq!(store.find(9).err(), Some(AuthError::NotFound));
    assert_eq!(store.find_from_email(&"nobody@x".to_string()).err(), Some(AuthError::NotFound));
    assert_eq!(store.find_from_slug(&"nobody".to_string()).err(), Some(AuthError::NotFound));
    assert_eq!(store.find_id_from_slug(&"nobody".to_string()), Err(AuthError::NotFound));
    assert_eq!(store.find_slim_from_email(&"nobody@x".to_string()).err(), Some(AuthError::NotFound));
    assert_eq!(store.find_slim_from_slug(&"nobody".to_string()).err(), Some(AuthError::NotFound));
    assert_eq!(store.find_from_user_name(&"Nobody".to_string()).err(), Some(AuthError::NotFound));
}

#[test]
fn address_slug_and_identifier_are_unique() {
    let mut store = store_with_two();
    let same_email = store.create_with(&data("Other", "ADA@example.com", "pw"), 3, SALT.to_string(), 0);
    assert_eq!(same_email.err(), Some(AuthError::Conflict));
    let same_slug = store.create_with(&data("ada lovelace", "other@example.com", "pw"), 3, SALT.to_string(), 0);
    assert_eq!(same_slug.err(), Some(AuthError::Conflict));
    let same_id = store.create_with(&data("Other", "other@example.com", "pw"), 1, SALT.to_string(), 0);
    assert_eq!(same_id.err(), Some(AuthError::Conflict));
    assert_eq!(store.len(), 2);
    let invalid = store.create_with(&data("", "other@example.com", "pw"), 3, SALT.to_string(), 0);
    assert_eq!(invalid.err(), Some(AuthError::InvalidInput));
    let empty_first = store.create_with(&data("", "ada@example.com", "pw"), 1, SALT.to_string(), 0);
    assert_eq!(empty_first.err(), Some(AuthError::InvalidInput));
    let taken_before_salt = store.create_with(&data("Ada Lovelace", "x@example.com", "pw"), 3, "short".to_string(), 0);
    assert_eq!(taken_before_salt.err(), Some(AuthError::Conflict));
    let free_with_bad_salt = store.create_with(&data("New", "x@example.com", "pw"), 3, "short".to_string(), 0);
    assert_eq!(free_with_bad_salt.err(), Some(AuthError::InvalidInput));
    assert_eq!(store.len(), 2);
}

#[test]
fn check_enrolment_makes_the_user_without_storing_it() {
    let store = store_with_two();
    let u = store.check_enrolment(&data(" R2D2 ", " R2@Example.com ", " beep "), 9, SALT.to_string(), 7).unwrap();
    assert_eq!(u.id, 9);
    assert_eq!(u.user_name, "R2D2");
    assert_eq!(u.slug, "r2d2");
    assert_eq!(u.email, "r2@example.com");
    assert_eq!(u.created_at, 7);
    assert!(check_password("beep", SALT, &u.hash));
    assert_eq!(store.len(), 2);
    assert_eq!(
        store.check_enrolment(&data("Ada Lovelace", "new@example.com", "pw"), 9, SALT.to_string(), 7).err(),
        Some(AuthError::Conflict)
    );
}

#[test]
fn taken_keys_and_clashes_are_told() {
    let store = store_with_two();
    let free = ("x@example.com".to_string(), "x".to_string());
    let ada = ("ada@example.com".to_string(), "ada_lovelace".to_string());
    assert!(!store.is_taken(9, &free.0, &free.1));
    assert!(store.is_taken(1, &free.0, &free.1));
    assert!(store.is_taken(9, &ada.0, &free.1));
    assert!(store.is_taken(9, &free.0, &ada.1));
    assert!(!store.clashes_with_others(1, &ada.0, &ada.1));
    assert!(store.clashes_with_others(2, &ada.0, &free.1));
    assert!(store.clashes_with_others(2, &free.0, &ada.1));
    assert!(!store.clashes_with_others(9, &ada.0, &ada.1));
}

#[test]
fn create_mints_identifier_and_salt() {
    let mut store = CredentialStore::new();
    let a = store.create(&data("Ada Lovelace", "ada@example.com", "pw")).unwrap();
    let g = store.create(&data("Grace Hopper", "grace@example.com", "pw")).unwrap();
    assert_ne!(a.id, g.id);
    assert_ne!(a.salt, g.salt);
    assert_eq!(store.len(), 2);
    assert_eq!(
        store.create(&data("Ada Lovelace", "ada2@example.com", "pw")).err(),
        Some(AuthError::Conflict)
    );
    assert_eq!(store.create(&data("A", "", "pw")).err(), Some(AuthError::InvalidInput));
}

#[test]
fn find_all_and_find_admins_keep_the_order() {
    let mut store = store_with_two();
    let mut admin = data("Root", "root@example.com", "pw");
    admin.role = Role::Admin;
    admin.validated = true;
    store.create_with(&admin, 3, SALT.to_string(), 300).unwrap();
    let all: Vec<u128> = store.find_all().iter().map(|u| u.id).collect();
    assert_eq!(all, vec![1, 2, 3]);
    let admins: Vec<u128> = store.find_admins().iter().map(|u| u.id).collect();
    assert_eq!(admins, vec![3]);
    assert_eq!(store.count_admins(), 1);
    assert!(store.is_sole_admin(3));
    assert!(!store.is_sole_admin(1));
    assert!(!store.is_sole_admin(99));
}

#[test]
fn update_writes_every_field_but_the_creation_time() {
    let mut store = store_with_two();
    let mut ada = store.find(1).unwrap();
    ada.user_name = "Ada King".to_string();
    ada.slug = "ada_king".to_string();
    ada.email = "king@example.com".to_string();
    ada.role = Role::Admin;
    ada.validated = true;
    ada.created_at = 999;
    ada.hash = vec![1, 2, 3];
    ada.salt = "other".to_string();
    let stored = store.update(ada).unwrap();
    assert_eq!(stored.id, 1);
    assert_eq!(stored.user_name, "Ada King");
    assert_eq!(stored.slug, "ada_king");
    assert_eq!(stored.email, "king@example.com");
    assert_eq!(stored.role, Role::Admin);
    assert!(stored.validated);
    assert_eq!(stored.hash, vec![1, 2, 3]);
    assert_eq!(stored.salt, "other");
    assert_eq!(stored.created_at, 100);
    let found = store.find_from_slug(&"ada_king".to_string()).unwrap();
    assert_eq!(found.hash, vec![1, 2, 3]);
    assert_eq!(found.salt, "other");
    assert_eq!(found.created_at, 100);
    assert_eq!(store.find_from_slug(&"ada_lovelace".to_string()).err(), Some(AuthError::NotFound));
    let grace = store.find(2).unwrap();
    assert_eq!(grace.email, "grace@example.com");
    assert_eq!(grace.created_at, 200);
}

#[test]
fn update_reports_missing_and_clashing_users() {
    let mut store = store_with_two();
    let mut ghost = User::dummy();
    ghost.id = 77;
    assert_eq!(store.update(ghost).err(), Some(AuthError::NotFound));
    let mut ada = store.find(1).unwrap();
    ada.email = "grace@example.com".to_string();
    assert_eq!(store.update(ada).err(), Some(AuthError::Conflict));
    let mut ada = store.find(1).unwrap();
    ada.slug = "grace_hopper".to_string();
    assert_eq!(store.update(ada).err(), Some(AuthError::Conflict));
    assert_eq!(store.find(1).unwrap().email, "ada@example.com");
}

#[test]
fn password_is_replaced_with_its_salt() {
    let mut store = store_with_two();
    let before = store.find(1).unwrap();
    let after = store.update_password(1, &"new password".to_string()).unwrap();
    assert_ne!(after.salt, before.salt);
    assert_ne!(after.hash, before.hash);
    assert!(check_password("new password", &after.salt, &after.hash));
    assert!(!check_password("pw-a", &after.salt, &after.hash));
    let stored = store.find(1).unwrap();
    assert_eq!(stored.salt, after.salt);
    assert_eq!(stored.hash, after.hash);
    assert_eq!(stored.email, "ada@example.com");
    assert_eq!(
        store.update_password(9, &"x".to_string()).err(),
        Some(AuthError::NotFound)
    );
    assert_eq!(
        store.update_password_with(1, &"x".to_string(), "short".to_string()).err(),
        Some(AuthError::InvalidInput)
    );
    let set = store.set_password(2, vec![9, 9], "pepper".to_string()).unwrap();
    assert_eq!(set.hash, vec![9, 9]);
    assert_eq!(set.salt, "pepper");
    assert_eq!(store.set_password(9, vec![], String::new()).err(), Some(AuthError::NotFound));
}

#[test]
fn delete_is_idempotent() {
    let mut store = store_with_two();
    assert_eq!(store.delete(1), 1);
    assert_eq!(store.delete(1), 0);
    assert_eq!(store.len(), 1);
    assert_eq!(store.find(1).err(), Some(AuthError::NotFound));
    assert_eq!(store.find(2).unwrap().slug, "grace_hopper");
}

#[test]
fn insert_refuses_what_is_taken() {
    let mut store = CredentialStore::new();
    let mut a = User::dummy();
    a.id = 1;
    a.email = "a@x".to_string();
    a.slug = "a".to_string();
    assert_eq!(store.insert(a.clone()), Ok(()));
    let mut b = a.clone();
    b.id = 2;
    b.email = "b@x".to_string();
    assert_eq!(store.insert(b), Err(AuthError::Conflict));
    assert_eq!(store.len(), 1);
}

#[test]
fn token_store_holds_one_record_per_address() {
    let mut tokens = TokenStore::new();
    let first = tokens.issue_with("ada@example.com", 1, "aaaa-a".to_string(), 1000, 60);
    assert_eq!(first.expires_at, 1060);
    tokens.issue_with("grace@example.com", 2, "bbbb-b".to_string(), 1000, 60);
    let second = tokens.issue_with("ada@example.com", 3, "cccc-c".to_string(), 2000, 60);
    assert_eq!(tokens.len(), 2);
    let held = tokens.find_by_email(&"ada@example.com".to_string()).unwrap();
    assert_eq!(held.id, 3);
    assert_eq!(held.secret, second.secret);
    assert_eq!(held.expires_at, 2060);
    assert_eq!(tokens.find_by_token(&"aaaa-a".to_string()).err(), Some(AuthError::NotFound));
    assert_eq!(tokens.find_by_token(&"bbbb-b".to_string()).unwrap().email, "grace@example.com");
    assert_eq!(tokens.find_by_email(&"nobody@x".to_string()).err(), Some(AuthError::NotFound));
}

#[test]
fn token_store_supersedes_by_address_only() {
    let mut tokens = TokenStore::new();
    tokens.issue_with("a@x", 1, "s1".to_string(), 0, 10);
    tokens.issue_with("b@x", 2, "s2".to_string(), 0, 10);
    tokens.issue_with("c@x", 1, "s2".to_string(), 0, 10);
    assert_eq!(tokens.len(), 3);
    assert_eq!(tokens.find_by_email(&"a@x".to_string()).unwrap().secret, "s1");
    assert_eq!(tokens.find_by_email(&"b@x".to_string()).unwrap().secret, "s2");
    assert_eq!(tokens.find_by_email(&"c@x".to_string()).unwrap().id, 1);
    tokens.issue_with("a@x", 4, "s4".to_string(), 5, 10);
    assert_eq!(tokens.len(), 3);
    assert_eq!(tokens.find_by_email(&"a@x".to_string()).unwrap().secret, "s4");
    assert_eq!(tokens.find_by_token(&"s1".to_string()).err(), Some(AuthError::NotFound));
}

#[test]
fn token_store_finds_the_newest_record_with_a_secret() {
    let mut tokens = TokenStore::new();
    tokens.issue_with("a@x", 1, "same".to_string(), 0, 10);
    tokens.issue_with("b@x", 2, "same".to_string(), 0, 10);
    assert_eq!(tokens.find_by_token(&"same".to_string()).unwrap().email, "b@x");
    assert_eq!(tokens.remove_email(&"b@x".to_string()), 1);
    assert_eq!(tokens.find_by_token(&"same".to_string()).unwrap().email, "a@x");
}

#[test]
fn token_store_deletes_every_record_with_an_identifier() {
    let mut tokens = TokenStore::new();
    tokens.issue_with("a@x", 1, "s1".to_string(), 0, 10);
    tokens.issue_with("b@x", 1, "s2".to_string(), 0, 10);
    tokens.issue_with("c@x", 3, "s3".to_string(), 0, 10);
    assert_eq!(tokens.delete(1), 2);
    assert_eq!(tokens.len(), 1);
}

#[test]
fn token_store_deletes_and_purges() {
    let mut tokens = TokenStore::new();
    tokens.issue_with("a@x", 1, "s1".to_string(), 0, 10);
    tokens.issue_with("b@x", 2, "s2".to_string(), 0, 20);
    tokens.issue_with("c@x", 3, "s3".to_string(), 0, 30);
    assert_eq!(tokens.delete(9), 0);
    assert_eq!(tokens.purge_expired(10), 0);
    assert_eq!(tokens.purge_expired(11), 1);
    assert_eq!(tokens.delete(2), 1);
    assert_eq!(tokens.remove_email(&"nobody@x".to_string()), 0);
    assert_eq!(tokens.remove_email(&"c@x".to_string()), 1);
    assert_eq!(tokens.len(), 0);
}

#[test]
fn token_store_mints_codes() {
    let mut tokens = TokenStore::new();
    let t = tokens.issue("a@x", 5, true, 60).unwrap();
    assert_eq!(t.email, "a@x");
    assert_eq!(t.secret.len(), 6);
    assert!(t.expires_at > 1_600_000_000);
    let held = tokens.find_by_token(&t.secret).unwrap();
    assert_eq!(held.id, t.id);
    assert_eq!(held.clone().secret, t.secret);
}

#[test]
fn token_store_issues_for_no_seconds() {
    let mut tokens = TokenStore::new();
    let t = tokens.issue("a@x", 32, false, 0).unwrap();
    assert_eq!(t.email, "a@x");
    assert_eq!(t.secret.len(), 32);
    assert!(t.secret.chars().all(|c| c.is_ascii_alphanumeric()));
    assert!(t.expires_at > 1_600_000_000);
    assert_eq!(tokens.len(), 1);
    let again = tokens.issue("a@x", 32, false, 0).unwrap();
    assert_eq!(tokens.len(), 1);
    assert_eq!(tokens.find_by_email(&"a@x".to_string()).unwrap().id, again.id);
    assert_eq!(tokens.purge_expired(t.expires_at + 3600), 1);
}

#[test]
fn new_stores_are_empty() {
    let users = CredentialStore::new();
    assert_eq!(users.len(), 0);
    assert!(users.find_all().is_empty());
    assert_eq!(users.count_admins(), 0);
    let tokens = TokenStore::new();
    assert_eq!(tokens.len(), 0);
    assert_eq!(tokens.find_by_token(&String::new()).err(), Some(AuthError::NotFound));
}
