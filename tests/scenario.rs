use creator_api::creator::Creator;
use creator_api::database::Database;
use creator_api::error::ApiError;
use creator_api::routes::{
    delete, get_version, sign_in, sign_up, update, upload_pfp, DeleteRequest, SignInRequest, SignUpRequest,
    UpdateUserRequest,
};
use creator_api::session::Session;

fn sign_in_as(name: &str, password: &str, db: &mut Database) -> Result<String, ApiError> {
    let req = SignInRequest { name: name.to_string(), password: password.to_string() };
    sign_in(&req, db).map(|r| r.token)
}

#[test]
fn sign_up_sign_in_update_and_sign_in_again() {
    let mut db = Database::new();
    let up = SignUpRequest {
        name: "alice".to_string(),
        email: "a@x.com".to_string(),
        password: "correct-horse".to_string(),
    };
    let t1 = sign_up(&up, &mut db).unwrap().token;
    let t2 = sign_in_as("alice", "correct-horse", &mut db).unwrap();
    assert_ne!(t2, uuid_text(t1));
    assert_eq!(sign_in_as("alice", "wrong", &mut db), Err(ApiError::Unauthorized));

    let header = format!("Bearer {}", uuid_text(t1));
    let session = Session::authenticate(Some(&header), &db).unwrap();
    let req = UpdateUserRequest {
        email: None,
        current_password: "correct-horse".to_string(),
        password: Some("new-pass".to_string()),
        pfp: None,
    };
    assert!(update(&session, &req, &mut db).is_ok());
    assert_eq!(sign_in_as("alice", "correct-horse", &mut db), Err(ApiError::Unauthorized));
    assert!(sign_in_as("alice", "new-pass", &mut db).is_ok());
}

fn uuid_text(t: u128) -> String {
    let h = format!("{:032x}", t);
    format!("{}-{}-{}-{}-{}", &h[0..8], &h[8..12], &h[12..16], &h[16..20], &h[20..32])
}

#[test]
fn sign_in_token_authenticates_its_creator() {
    let mut db = Database::new();
    let up = SignUpRequest { name: "bo".to_string(), email: "b@x.com".to_string(), password: "pw".to_string() };
    sign_up(&up, &mut db).unwrap();
    let token = sign_in_as("bo", "pw", &mut db).unwrap();
    assert_eq!(token.len(), 36);
    let s = Session::authenticate(Some(&format!("Bearer {}", token)), &db).unwrap();
    assert_eq!(s.subject, Creator::get_by_name("bo".to_string(), &db).unwrap().id);
    assert_eq!(sign_in_as("nobody", "pw", &mut db), Err(ApiError::NotFound));
}

#[test]
fn sign_in_by_email() {
    let mut db = Database::new();
    let up = SignUpRequest { name: "em".to_string(), email: "e@x.com".to_string(), password: "pw".to_string() };
    sign_up(&up, &mut db).unwrap();
    let token = sign_in_as("e@x.com", "pw", &mut db).unwrap();
    let s = Session::authenticate(Some(&token), &db).unwrap();
    assert_eq!(s.subject, Creator::get_by_name("em".to_string(), &db).unwrap().id);
    assert_eq!(sign_in_as("e@x.com", "bad", &mut db), Err(ApiError::Unauthorized));
}

#[test]
fn sign_up_with_a_taken_name_conflicts() {
    let mut db = Database::new();
    let up = SignUpRequest { name: "cy".to_string(), email: "c@x.com".to_string(), password: "pw".to_string() };
    sign_up(&up, &mut db).unwrap();
    let again = SignUpRequest { name: "cy".to_string(), email: "c2@x.com".to_string(), password: "pw".to_string() };
    assert_eq!(sign_up(&again, &mut db), Err(ApiError::AlreadyExists));
}

#[test]
fn delete_revokes_sessions_then_removes_the_account() {
    let mut db = Database::new();
    let up = SignUpRequest { name: "di".to_string(), email: "d@x.com".to_string(), password: "pw".to_string() };
    let token = sign_up(&up, &mut db).unwrap().token;
    let session = Session::get(token, &db).unwrap();
    let bad = DeleteRequest { password: "nope".to_string() };
    assert_eq!(delete(&bad, &session, &mut db), Err(ApiError::Unauthorized));
    assert!(Session::get(token, &db).is_ok());
    let good = DeleteRequest { password: "pw".to_string() };
    assert_eq!(delete(&good, &session, &mut db), Ok(()));
    assert_eq!(Session::get(token, &db), Err(ApiError::Unauthorized));
    assert_eq!(Creator::get_by_name("di".to_string(), &db).unwrap_err(), ApiError::NotFound);
}

#[test]
fn upload_key_names_the_subject() {
    let s = Session { token: 1, subject: 0x550e8400e29b41d4a716446655440000, created: 0 };
    assert_eq!(upload_pfp(&s), "pfp-550e8400-e29b-41d4-a716-446655440000");
}

#[test]
fn version_is_v1() {
    assert_eq!(get_version(), "v1");
}
