use pap_app::database::Database;
use pap_app::db_structs::Bibliotecario;
use pap_app::error::AuthError;
use pap_app::librarians::{
    check_librarians_existence, finish_login, login, new_librarian, store_librarian, verify_jwt,
    FIRST_LIBRARIAN_TOKEN,
};
use pap_app::roles::create_role;
use pap_app::token::{get_from_jwt, new_jwt, SigningKey};

fn cheap_hash(password: &str) -> String {
    bcrypt::hash(password, 4).unwrap()
}

fn key() -> SigningKey {
    SigningKey::new("1700000000".to_string())
}

#[test]
fn login_with_right_password_issues_token() {
    let mut db = Database::new();
    store_librarian(&mut db, "ana".to_string(), cheap_hash("segredo"), None).unwrap();
    let k = key();
    let token = login(&db, &k, "ana".to_string(), "segredo".to_string()).unwrap();
    let claims = get_from_jwt(&k, &token).unwrap();
    assert_eq!(claims.id, Some("1".to_string()));
    assert_eq!(claims.name, Some("ana".to_string()));
    assert_eq!(verify_jwt(&db, &k, &token), Ok(()));
}

#[test]
fn wrong_password_and_unknown_name_fail_alike() {
    let mut db = Database::new();
    store_librarian(&mut db, "ana".to_string(), cheap_hash("segredo"), None).unwrap();
    let k = key();
    let wrong = login(&db, &k, "ana".to_string(), "outra".to_string());
    let unknown = login(&db, &k, "zeca".to_string(), "segredo".to_string());
    assert_eq!(wrong, Err(AuthError::InvalidCredentials));
    assert_eq!(unknown, wrong);
}

#[test]
fn unreadable_stored_hash_fails_as_bad_credentials() {
    let mut db = Database::new();
    store_librarian(&mut db, "ana".to_string(), "not-a-hash".to_string(), None).unwrap();
    let r = login(&db, &key(), "ana".to_string(), "segredo".to_string());
    assert_eq!(r, Err(AuthError::InvalidCredentials));
}

#[test]
fn login_uses_first_librarian_of_that_name() {
    let mut db = Database::new();
    store_librarian(&mut db, "ana".to_string(), cheap_hash("um"), None).unwrap();
    store_librarian(&mut db, "ana".to_string(), cheap_hash("dois"), None).unwrap();
    let k = key();
    assert!(login(&db, &k, "ana".to_string(), "um".to_string()).is_ok());
    assert_eq!(
        login(&db, &k, "ana".to_string(), "dois".to_string()),
        Err(AuthError::InvalidCredentials)
    );
}

#[test]
fn finish_login_follows_the_verdict() {
    let k = key();
    let l = Bibliotecario { id: 4, nome: "ana".to_string(), password: "h".to_string(), cargo: None };
    assert_eq!(finish_login(&k, &l, Some(true)), Ok(new_jwt(&k, &l)));
    assert_eq!(finish_login(&k, &l, Some(false)), Err(AuthError::InvalidCredentials));
    assert_eq!(finish_login(&k, &l, None), Err(AuthError::InvalidCredentials));
}

#[test]
fn bootstrap_placeholder_works_once() {
    let mut db = Database::new();
    let k = key();
    assert!(!check_librarians_existence(&db));
    let first = new_librarian(
        &mut db,
        &k,
        FIRST_LIBRARIAN_TOKEN.to_string(),
        "ana".to_string(),
        "segredo".to_string(),
        None,
    );
    assert_eq!(first, Ok(()));
    assert!(check_librarians_existence(&db));
    let second = new_librarian(
        &mut db,
        &k,
        FIRST_LIBRARIAN_TOKEN.to_string(),
        "rui".to_string(),
        "x".to_string(),
        None,
    );
    assert_eq!(second, Err(AuthError::AlreadyBootstrapped));
    assert_eq!(login(&db, &k, "rui".to_string(), "x".to_string()), Err(AuthError::InvalidCredentials));
    let token = login(&db, &k, "ana".to_string(), "segredo".to_string()).unwrap();
    assert_eq!(verify_jwt(&db, &k, &token), Ok(()));
}

#[test]
fn stored_password_is_a_hash() {
    let mut db = Database::new();
    let k = key();
    new_librarian(&mut db, &k, FIRST_LIBRARIAN_TOKEN.to_string(), "ana".to_string(), "segredo".to_string(), None)
        .unwrap();
    let stored = db.librarian_named(&"ana".to_string()).unwrap();
    assert_ne!(stored.password, "segredo");
    assert!(stored.password.starts_with("$2b$12$"));
    assert!(bcrypt::verify("segredo", &stored.password).unwrap());
    assert_eq!(db.librarian_rows().len(), 1);
}

#[test]
fn new_librarian_needs_a_valid_token() {
    let mut db = Database::new();
    store_librarian(&mut db, "ana".to_string(), "h".to_string(), None).unwrap();
    let r = new_librarian(&mut db, &key(), "junk".to_string(), "rui".to_string(), "x".to_string(), None);
    assert_eq!(r, Err(AuthError::InvalidToken));
    assert!(login(&db, &key(), "rui".to_string(), "x".to_string()).is_err());
}

#[test]
fn new_librarian_with_unknown_role_is_refused() {
    let mut db = Database::new();
    let r = new_librarian(
        &mut db,
        &key(),
        FIRST_LIBRARIAN_TOKEN.to_string(),
        "ana".to_string(),
        "segredo".to_string(),
        Some("chefe".to_string()),
    );
    assert_eq!(r, Err(AuthError::RoleNotFound));
    assert!(!check_librarians_existence(&db));
}

#[test]
fn store_librarian_needs_existing_role() {
    let mut db = Database::new();
    let k = key();
    store_librarian(&mut db, "ana".to_string(), "h".to_string(), None).unwrap();
    let ana = Bibliotecario { id: 1, nome: "ana".to_string(), password: "h".to_string(), cargo: None };
    let token = new_jwt(&k, &ana);
    assert_eq!(
        store_librarian(&mut db, "rui".to_string(), "h".to_string(), Some("chefe".to_string())),
        Err(AuthError::RoleNotFound)
    );
    create_role(&mut db, &k, token, "chefe".to_string(), vec![1]).unwrap();
    assert_eq!(
        store_librarian(&mut db, "rui".to_string(), "h".to_string(), Some("chefe".to_string())),
        Ok(())
    );
    assert_eq!(db.librarian_count(), 2);
}

#[test]
fn ids_run_out_at_the_largest_i32() {
    let mut db = Database::new();
    let row = Bibliotecario { id: i32::MAX - 1, nome: "ana".to_string(), password: "h".to_string(), cargo: None };
    assert!(db.add_librarian(row));
    let r = store_librarian(&mut db, "rui".to_string(), "h".to_string(), None);
    assert!(matches!(r, Err(AuthError::StorageError(_))));
    assert_eq!(db.librarian_count(), 1);
}

#[test]
fn stored_rows_need_usable_ids() {
    let mut db = Database::new();
    let row = |id: i32| Bibliotecario { id, nome: "x".to_string(), password: "h".to_string(), cargo: None };
    assert!(!db.add_librarian(row(0)));
    assert!(!db.add_librarian(row(i32::MAX)));
    assert!(db.add_librarian(row(5)));
    assert!(!db.add_librarian(row(5)));
    store_librarian(&mut db, "y".to_string(), "h".to_string(), None).unwrap();
    assert!(db.has_librarian(6));
    assert!(!db.has_librarian(1));
}
