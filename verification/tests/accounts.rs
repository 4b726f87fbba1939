//! Wallet and user lifecycle: creation, balance updates, registration
//! checks, credential verification, and deletion.

use trade_journal::hashing::new_hash;
use trade_journal::user::UserStore;
use trade_journal::wallet::WalletStore;

#[test]
fn create_wallet() {
    let mut wallets = WalletStore::new();
    let wallet = wallets.create().unwrap();
    assert_eq!(wallet.id.len(), 36);
}

#[test]
fn update_balance() {
    let mut wallets = WalletStore::new();
    let wallet = wallets.create().unwrap();
    let balance = 100;
    let updated_wallet = wallets.update_balance(wallet.id.clone(), balance).unwrap();
    assert_eq!(updated_wallet.balance, balance);
}

#[test]
fn create_user() {
    let mut wallets = WalletStore::new();
    let mut users = UserStore::new();
    let name = "test_user";
    let email = "test@email.com";
    let password = "test_password";
    let wallet_id = wallets.create().unwrap().id;

    let (user, err) = users.create(
        &wallets,
        name.to_string(),
        email.to_string(),
        wallet_id.clone(),
        password.to_string(),
    );
    assert!(err.is_none());
    let user = user.unwrap();

    assert_eq!(user.name.as_str(), name);
    assert_eq!(user.email.as_str(), email);
    assert_eq!(user.wallet_id, wallet_id);
    // The stored password is a salted hash accepting the submitted one.
    assert_ne!(user.password.as_str(), password);
    assert_eq!(users.login(email.to_string(), password.to_string()), Some(user.id));
}

#[test]
fn wallet_is_created_with_zero_balance_and_hex_hash() {
    let mut wallets = WalletStore::new();
    let wallet = wallets.create().unwrap();
    assert_eq!(wallet.balance, 0);
    assert_eq!(wallet.hash.len(), 64);
    assert!(wallet.hash.chars().all(|c| c.is_ascii_hexdigit() && !c.is_ascii_uppercase()));
    let found = wallets.find_by_hash(wallet.hash.clone()).unwrap();
    assert_eq!(found.id, wallet.id);
}

#[test]
fn new_hash_is_64_hex_characters() {
    let hash = new_hash();
    assert_eq!(hash.len(), 64);
    assert!(hash.chars().all(|c| c.is_ascii_hexdigit() && !c.is_ascii_uppercase()));
    // Fresh hashes differ: the key underneath is randomly generated.
    assert_ne!(new_hash(), hash);
}

#[test]
fn user_create_rejects_missing_fields() {
    let mut wallets = WalletStore::new();
    let mut users = UserStore::new();
    let wallet_id = wallets.create().unwrap().id;

    let (user, err) = users.create(
        &wallets,
        String::new(),
        "a@b.c".to_string(),
        wallet_id,
        "pw".to_string(),
    );
    assert!(user.is_none());
    assert_eq!(err.unwrap().as_str(), "Missing required fields");
    assert!(users.list().is_empty());
}

#[test]
fn user_create_rejects_duplicate_email() {
    let mut wallets = WalletStore::new();
    let mut users = UserStore::new();
    let wallet_id = wallets.create().unwrap().id;

    let (first, _) = users.create(
        &wallets,
        "a".to_string(),
        "a@b.c".to_string(),
        wallet_id.clone(),
        "pw".to_string(),
    );
    assert!(first.is_some());

    let (second, err) = users.create(
        &wallets,
        "b".to_string(),
        "a@b.c".to_string(),
        wallet_id,
        "pw".to_string(),
    );
    assert!(second.is_none());
    assert_eq!(err.unwrap().as_str(), "Email already exists");
    assert_eq!(users.list().len(), 1);
}

#[test]
fn user_create_rejects_unknown_wallet() {
    let wallets = WalletStore::new();
    let mut users = UserStore::new();

    let (user, err) = users.create(
        &wallets,
        "a".to_string(),
        "a@b.c".to_string(),
        "no-such-wallet".to_string(),
        "pw".to_string(),
    );
    assert!(user.is_none());
    assert_eq!(err.unwrap().as_str(), "Wallet does not exist");
}

#[test]
fn login_rejects_wrong_password_and_unknown_email() {
    let mut wallets = WalletStore::new();
    let mut users = UserStore::new();
    let wallet_id = wallets.create().unwrap().id;
    users
        .create(
            &wallets,
            "a".to_string(),
            "a@b.c".to_string(),
            wallet_id,
            "right".to_string(),
        )
        .0
        .unwrap();

    assert!(users.login("a@b.c".to_string(), "wrong".to_string()).is_none());
    assert!(users.login("nobody@b.c".to_string(), "right".to_string()).is_none());
    assert!(users.login("a@b.c".to_string(), "right".to_string()).is_some());
}

#[test]
fn user_update_rehashes_password() {
    let mut wallets = WalletStore::new();
    let mut users = UserStore::new();
    let wallet_id = wallets.create().unwrap().id;
    let user = users
        .create(
            &wallets,
            "a".to_string(),
            "a@b.c".to_string(),
            wallet_id.clone(),
            "old-pw".to_string(),
        )
        .0
        .unwrap();

    let updated = users
        .update(
            user.id.clone(),
            "b".to_string(),
            "b@b.c".to_string(),
            wallet_id,
            "new-pw".to_string(),
        )
        .unwrap();
    // The returned record carries the submitted password as given.
    assert_eq!(updated.password.as_str(), "new-pw");
    assert_eq!(updated.name.as_str(), "b");
    assert_eq!(updated.created_at, user.created_at);

    assert!(users.login("b@b.c".to_string(), "new-pw".to_string()).is_some());
    assert!(users.login("b@b.c".to_string(), "old-pw".to_string()).is_none());
    assert!(users.login("a@b.c".to_string(), "new-pw".to_string()).is_none());
}

#[test]
fn user_delete_reports_presence() {
    let mut wallets = WalletStore::new();
    let mut users = UserStore::new();
    let wallet_id = wallets.create().unwrap().id;
    let user = users
        .create(
            &wallets,
            "a".to_string(),
            "a@b.c".to_string(),
            wallet_id,
            "pw".to_string(),
        )
        .0
        .unwrap();

    assert!(users.delete(user.id.clone()));
    assert!(users.find_by_id(user.id.clone()).is_none());
    assert!(!users.delete(user.id));
}

#[test]
fn find_by_email_returns_first_match() {
    let mut wallets = WalletStore::new();
    let mut users = UserStore::new();
    let w1 = wallets.create().unwrap().id;
    let first = users
        .create(&wallets, "a".to_string(), "x@b.c".to_string(), w1.clone(), "pw".to_string())
        .0
        .unwrap();
    // A second user under the same email can only arrive through update,
    // which does not re-check email uniqueness.
    let second = users
        .create(&wallets, "b".to_string(), "y@b.c".to_string(), w1.clone(), "pw".to_string())
        .0
        .unwrap();
    users
        .update(second.id.clone(), "b".to_string(), "x@b.c".to_string(), w1, "pw".to_string())
        .unwrap();

    let found = users.find_by_email("x@b.c".to_string()).unwrap();
    assert_eq!(found.id, first.id);
}
