use pap_app::database::Database;
use pap_app::db_structs::{Bibliotecario, Cargo, Permissao};
use pap_app::error::AuthError;
use pap_app::librarians::{
    does_librarian_has_permission, does_librarian_has_permission_by_acao,
    get_librarian_permissions, store_librarian, FIRST_LIBRARIAN_TOKEN,
};
use pap_app::roles::{
    add_permission_to_role, create_role, delete_role, get_permissions, get_role_by_name,
    get_roles, has_duplicate, update_role, RoleResponse,
};
use pap_app::token::{new_jwt, SigningKey};

fn key() -> SigningKey {
    SigningKey::new("k".to_string())
}

fn perm(id: i32, acao: &str) -> Permissao {
    Permissao { id, acao: acao.to_string(), label: format!("Pode {}", acao) }
}

/// Tables with the permissions 1..=3, librarian 1 "ana" of role "admin", and
/// a token for her.
fn setup() -> (Database, String) {
    let mut db = Database::new();
    db.add_permission(perm(1, "criar_livro"));
    db.add_permission(perm(2, "apagar_livro"));
    db.add_permission(perm(3, "criar_leitor"));
    store_librarian(&mut db, "ana".to_string(), "h".to_string(), None).unwrap();
    let ana = Bibliotecario { id: 1, nome: "ana".to_string(), password: "h".to_string(), cargo: Some("admin".to_string()) };
    (db, new_jwt(&key(), &ana))
}

fn grant(nome: &str, permissao: i32) -> Cargo {
    Cargo { nome: nome.to_string(), permissao }
}

#[test]
fn granting_is_seen_by_the_same_token() {
    let (mut db, token) = setup();
    let k = key();
    assert_eq!(does_librarian_has_permission(&db, &k, token.clone(), 2), Ok(false));
    let r = add_permission_to_role(&mut db, &k, token.clone(), "admin".to_string(), vec![2]);
    assert_eq!(r, Ok("admin".to_string()));
    assert_eq!(does_librarian_has_permission(&db, &k, token.clone(), 2), Ok(true));
    assert_eq!(does_librarian_has_permission(&db, &k, token, 1), Ok(false));
}

#[test]
fn permission_check_needs_valid_token() {
    let (db, _) = setup();
    assert_eq!(does_librarian_has_permission(&db, &key(), "x".to_string(), 1), Err(AuthError::InvalidToken));
    let ghost = Bibliotecario { id: 9, nome: "zeca".to_string(), password: "h".to_string(), cargo: None };
    let t = new_jwt(&key(), &ghost);
    assert_eq!(does_librarian_has_permission(&db, &key(), t, 1), Err(AuthError::LibrarianNotFound));
}

#[test]
fn permission_by_action_key() {
    let (mut db, token) = setup();
    let k = key();
    add_permission_to_role(&mut db, &k, token.clone(), "admin".to_string(), vec![3]).unwrap();
    assert_eq!(does_librarian_has_permission_by_acao(&db, &k, token.clone(), "criar_leitor".to_string()), Ok(true));
    assert_eq!(does_librarian_has_permission_by_acao(&db, &k, token.clone(), "criar_livro".to_string()), Ok(false));
    assert_eq!(
        does_librarian_has_permission_by_acao(&db, &k, token, "voar".to_string()),
        Err(AuthError::UnknownAction)
    );
}

#[test]
fn unknown_action_key_is_reported_before_the_token() {
    let (db, _) = setup();
    assert_eq!(
        does_librarian_has_permission_by_acao(&db, &key(), "x".to_string(), "voar".to_string()),
        Err(AuthError::UnknownAction)
    );
    assert_eq!(
        does_librarian_has_permission_by_acao(&db, &key(), "x".to_string(), "criar_livro".to_string()),
        Err(AuthError::InvalidToken)
    );
}

#[test]
fn permissions_of_token_role_in_table_order() {
    let (mut db, token) = setup();
    let k = key();
    add_permission_to_role(&mut db, &k, token.clone(), "admin".to_string(), vec![3, 1]).unwrap();
    add_permission_to_role(&mut db, &k, token.clone(), "outro".to_string(), vec![2]).unwrap();
    let perms = get_librarian_permissions(&db, &k, token).unwrap();
    assert_eq!(perms, vec![perm(1, "criar_livro"), perm(3, "criar_leitor")]);
    assert!(matches!(get_librarian_permissions(&db, &k, "x".to_string()), Err(AuthError::InvalidToken)));
}

#[test]
fn create_role_with_repeated_permission_stores_nothing() {
    let (mut db, token) = setup();
    let k = key();
    let r = create_role(&mut db, &k, token.clone(), "leitor".to_string(), vec![1, 2, 1]);
    assert_eq!(r, Err(AuthError::AlreadyGranted));
    assert_eq!(get_roles(&db, &k, token.clone()).unwrap(), Vec::<Cargo>::new());
    let r = add_permission_to_role(&mut db, &k, token.clone(), "leitor".to_string(), vec![1, 2, 1]);
    assert_eq!(r, Ok("leitor".to_string()));
    assert_eq!(get_roles(&db, &k, token).unwrap(), vec![grant("leitor", 1), grant("leitor", 2)]);
}

#[test]
fn add_permission_passes_over_held_grants() {
    let (mut db, token) = setup();
    let k = key();
    create_role(&mut db, &k, token.clone(), "leitor".to_string(), vec![2]).unwrap();
    add_permission_to_role(&mut db, &k, token.clone(), "leitor".to_string(), vec![1, 2, 3]).unwrap();
    assert_eq!(
        get_roles(&db, &k, token).unwrap(),
        vec![grant("leitor", 2), grant("leitor", 1), grant("leitor", 3)]
    );
}

#[test]
fn create_role_with_held_permission_fails_whole_call() {
    let (mut db, token) = setup();
    let k = key();
    add_permission_to_role(&mut db, &k, token.clone(), "leitor".to_string(), vec![1]).unwrap();
    let r = create_role(&mut db, &k, token.clone(), "leitor".to_string(), vec![2, 1, 3]);
    assert_eq!(r, Err(AuthError::AlreadyGranted));
    assert_eq!(get_roles(&db, &k, token).unwrap(), vec![grant("leitor", 1)]);
}

#[test]
fn add_permission_stores_no_grant_twice() {
    let (mut db, token) = setup();
    let k = key();
    add_permission_to_role(&mut db, &k, token.clone(), "leitor".to_string(), vec![1, 1, 2]).unwrap();
    add_permission_to_role(&mut db, &k, token.clone(), "leitor".to_string(), vec![2, 3, 1]).unwrap();
    assert_eq!(
        get_roles(&db, &k, token).unwrap(),
        vec![grant("leitor", 1), grant("leitor", 2), grant("leitor", 3)]
    );
}

#[test]
fn create_role_stores_grants_in_order() {
    let (mut db, token) = setup();
    let k = key();
    assert_eq!(create_role(&mut db, &k, token.clone(), "leitor".to_string(), vec![3, 1]), Ok(()));
    assert_eq!(get_roles(&db, &k, token.clone()).unwrap(), vec![grant("leitor", 3), grant("leitor", 1)]);
    assert_eq!(
        create_role(&mut db, &k, token.clone(), "leitor".to_string(), vec![2]),
        Err(AuthError::RoleAlreadyExists)
    );
    assert_eq!(
        create_role(&mut db, &k, token.clone(), "leitor".to_string(), vec![2, 1]),
        Err(AuthError::AlreadyGranted)
    );
    assert_eq!(create_role(&mut db, &k, "x".to_string(), "novo".to_string(), vec![2]), Err(AuthError::InvalidToken));
    assert_eq!(create_role(&mut db, &k, token.clone(), "vazio".to_string(), vec![]), Ok(()));
    assert_eq!(get_roles(&db, &k, token).unwrap().len(), 2);
}

#[test]
fn placeholder_grants_before_first_librarian_only() {
    let mut db = Database::new();
    let k = key();
    let r = add_permission_to_role(&mut db, &k, FIRST_LIBRARIAN_TOKEN.to_string(), "admin".to_string(), vec![1, 2]);
    assert_eq!(r, Ok("admin".to_string()));
    store_librarian(&mut db, "ana".to_string(), "h".to_string(), Some("admin".to_string())).unwrap();
    let r = add_permission_to_role(&mut db, &k, FIRST_LIBRARIAN_TOKEN.to_string(), "admin".to_string(), vec![3]);
    assert_eq!(r, Err(AuthError::AlreadyBootstrapped));
}

#[test]
fn update_role_replaces_and_renames() {
    let (mut db, token) = setup();
    let k = key();
    create_role(&mut db, &k, token.clone(), "leitor".to_string(), vec![1, 2]).unwrap();
    create_role(&mut db, &k, token.clone(), "outro".to_string(), vec![3]).unwrap();
    assert_eq!(
        update_role(&mut db, &k, token.clone(), "leitor".to_string(), None, vec![2, 2]),
        Err(AuthError::AlreadyGranted)
    );
    assert_eq!(update_role(&mut db, &k, token.clone(), "leitor".to_string(), None, vec![3]), Ok(()));
    assert_eq!(get_roles(&db, &k, token.clone()).unwrap(), vec![grant("outro", 3), grant("leitor", 3)]);
    assert_eq!(
        update_role(&mut db, &k, token.clone(), "leitor".to_string(), Some("socio".to_string()), vec![1]),
        Ok(())
    );
    assert_eq!(get_roles(&db, &k, token).unwrap(), vec![grant("outro", 3), grant("socio", 1)]);
}

#[test]
fn delete_role_clears_librarians() {
    let (mut db, token) = setup();
    let k = key();
    create_role(&mut db, &k, token.clone(), "chefe".to_string(), vec![1]).unwrap();
    store_librarian(&mut db, "rui".to_string(), "h".to_string(), Some("chefe".to_string())).unwrap();
    assert_eq!(delete_role(&mut db, &k, token.clone(), "chefe".to_string()), Ok(()));
    assert_eq!(get_roles(&db, &k, token.clone()).unwrap(), Vec::<Cargo>::new());
    assert_eq!(delete_role(&mut db, &k, token.clone(), "chefe".to_string()), Err(AuthError::RoleNotFound));
    // the role is gone, so a librarian can no longer be given it
    assert_eq!(
        store_librarian(&mut db, "eva".to_string(), "h".to_string(), Some("chefe".to_string())),
        Err(AuthError::RoleNotFound)
    );
}

#[test]
fn role_by_name_lists_its_permissions() {
    let (mut db, token) = setup();
    let k = key();
    create_role(&mut db, &k, token.clone(), "leitor".to_string(), vec![3, 1]).unwrap();
    assert_eq!(
        get_role_by_name(&db, &k, token.clone(), "leitor".to_string()),
        Ok(RoleResponse { name: "leitor".to_string(), permissions: vec![3, 1] })
    );
    assert_eq!(get_role_by_name(&db, &k, token, "nada".to_string()), Err(AuthError::RoleNotFound));
}

#[test]
fn permission_table_is_listed_in_order() {
    let (db, _) = setup();
    assert_eq!(
        get_permissions(&db),
        vec![perm(1, "criar_livro"), perm(2, "apagar_livro"), perm(3, "criar_leitor")]
    );
}

#[test]
fn repeat_detection() {
    assert!(!has_duplicate(&vec![]));
    assert!(!has_duplicate(&vec![1, 2, 3]));
    assert!(has_duplicate(&vec![1, 2, 1]));
    assert!(has_duplicate(&vec![5, 5]));
}
