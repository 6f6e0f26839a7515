use creator_api::creator::Creator;
use creator_api::database::Database;
use creator_api::error::ApiError;
use creator_api::routes::{sign_up, SignUpRequest};
use creator_api::session::Session;

fn with_creator(name: &str) -> (Database, u128) {
    let mut db = Database::new();
    let req = SignUpRequest {
        name: name.to_string(),
        email: format!("{}@x.com", name),
        password: "pw".to_string(),
    };
    sign_up(&req, &mut db).unwrap();
    let id = Creator::get_by_name(name.to_string(), &db).unwrap().id;
    (db, id)
}

#[test]
fn created_session_resolves_to_its_subject() {
    let (mut db, id) = with_creator("alice");
    let s = Session::new(id, &mut db).unwrap();
    assert_eq!(s.subject, id);
    let found = Session::get(s.token, &db).unwrap();
    assert_eq!(found, s);
    assert_eq!(found.subject, id);
}

#[test]
fn session_for_unknown_subject_is_not_found() {
    let mut db = Database::new();
    assert_eq!(Session::new(7, &mut db), Err(ApiError::NotFound));
    assert_eq!(Session::issue(7, 1, 0, &mut db), Err(ApiError::NotFound));
}

#[test]
fn issue_refuses_a_token_in_use() {
    let (mut db, id) = with_creator("bob");
    let s = Session::issue(id, 42, 1000, &mut db).unwrap();
    assert_eq!(s, Session { token: 42, subject: id, created: 1000 });
    assert_eq!(Session::issue(id, 42, 2000, &mut db), Err(ApiError::InternalServerError));
    assert_eq!(Session::get(42, &db).unwrap().created, 1000);
}

#[test]
fn unknown_token_is_unauthorized_not_not_found() {
    let (db, _) = with_creator("carol");
    assert_eq!(Session::get(12345, &db), Err(ApiError::Unauthorized));
    assert_eq!(Session::resolve(None, &db), Err(ApiError::Unauthorized));
    assert_eq!(Session::resolve(Some(12345), &db), Err(ApiError::Unauthorized));
}

#[test]
fn sessions_of_a_subject_by_creation_time() {
    let (mut db, id) = with_creator("dave");
    let (other_db, _) = with_creator("erin");
    assert_eq!(Session::get_by_subject(id, &other_db), Vec::new());
    let first = Session::get_by_subject(id, &db);
    assert_eq!(first.len(), 1);
    Session::issue(id, 100, 6, &mut db).unwrap();
    Session::issue(id, 101, 5, &mut db).unwrap();
    Session::issue(id, 102, 6, &mut db).unwrap();
    let all = Session::get_by_subject(id, &db);
    assert_eq!(all.len(), 4);
    assert_eq!(all[0].token, 101);
    assert_eq!(all[1].created, 6);
    assert_eq!(all[2].created, 6);
    assert!(all[1].token == 100 || all[1].token == 102);
    assert_ne!(all[1].token, all[2].token);
    assert_eq!(all[3], first[0]);
}

#[test]
fn removal_by_token_is_idempotent() {
    let (mut db, id) = with_creator("frank");
    Session::issue(id, 7, 0, &mut db).unwrap();
    Session::remove_by_token(7, &mut db);
    assert_eq!(Session::get(7, &db), Err(ApiError::Unauthorized));
    Session::remove_by_token(7, &mut db);
    assert_eq!(Session::get_by_subject(id, &db).len(), 1);
}

#[test]
fn remove_revokes_only_that_session() {
    let (mut db, id) = with_creator("gina");
    let a = Session::issue(id, 1, 0, &mut db).unwrap();
    let b = Session::issue(id, 2, 0, &mut db).unwrap();
    a.remove(&mut db);
    assert_eq!(Session::get(1, &db), Err(ApiError::Unauthorized));
    assert_eq!(Session::get(2, &db), Ok(b));
}

#[test]
fn removal_by_subject_revokes_every_token_of_it() {
    let (mut db, id) = with_creator("hank");
    let (_, _) = with_creator("ivy");
    let a = Session::new(id, &mut db).unwrap();
    let b = Session::new(id, &mut db).unwrap();
    Session::remove_by_subject(id, &mut db);
    assert_eq!(Session::get(a.token, &db), Err(ApiError::Unauthorized));
    assert_eq!(Session::get(b.token, &db), Err(ApiError::Unauthorized));
    assert!(Session::get_by_subject(id, &db).is_empty());
    Session::remove_by_subject(id, &mut db);
    assert!(Session::get_by_subject(id, &db).is_empty());
}

#[test]
fn bearer_prefix_is_optional() {
    assert_eq!(Session::bearer_token("Bearer abc"), "abc");
    assert_eq!(Session::bearer_token("abc"), "abc");
    assert_eq!(Session::bearer_token("Bearer "), "");
    assert_eq!(Session::bearer_token("bearer abc"), "bearer abc");
    assert_eq!(Session::bearer_token("Beare"), "Beare");
}

#[test]
fn authenticate_accepts_bare_and_bearer_tokens() {
    let (mut db, id) = with_creator("jack");
    let s = Session::issue(id, 0x550e8400e29b41d4a716446655440000, 0, &mut db).unwrap();
    let bare = "550e8400-e29b-41d4-a716-446655440000";
    let bearer = "Bearer 550e8400-e29b-41d4-a716-446655440000";
    assert_eq!(Session::authenticate(Some(bare), &db), Ok(s));
    assert_eq!(Session::authenticate(Some(bearer), &db), Ok(s));
}

#[test]
fn authenticate_fails_closed() {
    let (db, _) = with_creator("kate");
    assert_eq!(Session::authenticate(None, &db), Err(ApiError::Unauthorized));
    assert_eq!(Session::authenticate(Some(""), &db), Err(ApiError::Unauthorized));
    assert_eq!(Session::authenticate(Some("Bearer not-a-token"), &db), Err(ApiError::Unauthorized));
    assert_eq!(
        Session::authenticate(Some("Bearer 00000000-0000-0000-0000-000000000001"), &db),
        Err(ApiError::Unauthorized)
    );
}
