use creator_api::creator::Creator;
use creator_api::database::Database;
use creator_api::error::ApiError;
use creator_api::session::Session;

fn text(s: &str) -> String {
    s.to_string()
}

#[test]
fn create_then_look_up_by_each_key() {
    let mut db = Database::new();
    let c = Creator::new(&text("alice"), &text("a@x.com"), Some(text("pic-1")), &text("pw"), &mut db).unwrap();
    assert_eq!(c.name, "alice");
    assert_eq!(c.email, "a@x.com");
    assert_eq!(c.pfp, Some(text("pic-1")));
    assert_eq!(Creator::get_by_id(c.id, &db).unwrap().name, "alice");
    assert_eq!(Creator::get_by_name(text("alice"), &db).unwrap().id, c.id);
    assert_eq!(Creator::get_by_email(text("a@x.com"), &db).unwrap().id, c.id);
}

#[test]
fn lookups_of_absent_creators_are_not_found() {
    let db = Database::new();
    assert_eq!(Creator::get_by_id(1, &db).unwrap_err(), ApiError::NotFound);
    assert_eq!(Creator::get_by_name(text("nobody"), &db).unwrap_err(), ApiError::NotFound);
    assert_eq!(Creator::get_by_email(text("n@x.com"), &db).unwrap_err(), ApiError::NotFound);
    assert_eq!(Creator::verify_by_name(text("nobody"), &text("pw"), &db), Err(ApiError::NotFound));
}

#[test]
fn same_name_twice_gives_one_success_and_one_conflict() {
    let mut db = Database::new();
    let first = Creator::new(&text("bob"), &text("b1@x.com"), None, &text("pw"), &mut db);
    let second = Creator::new(&text("bob"), &text("b2@x.com"), None, &text("pw"), &mut db);
    assert!(first.is_ok());
    assert_eq!(second.unwrap_err(), ApiError::AlreadyExists);
    assert_eq!(Creator::get_by_email(text("b2@x.com"), &db).unwrap_err(), ApiError::NotFound);
}

#[test]
fn same_email_twice_is_a_conflict() {
    let mut db = Database::new();
    Creator::new(&text("c1"), &text("c@x.com"), None, &text("pw"), &mut db).unwrap();
    let again = Creator::new(&text("c2"), &text("c@x.com"), None, &text("pw"), &mut db);
    assert_eq!(again.unwrap_err(), ApiError::AlreadyExists);
}

#[test]
fn stored_hash_is_not_the_password() {
    let mut db = Database::new();
    let c = Creator::new(&text("dora"), &text("d@x.com"), None, &text("secret"), &mut db).unwrap();
    assert_eq!(c.verify(&text("secret")), Ok(()));
    assert_eq!(c.verify(&text("Secret")), Err(ApiError::Unauthorized));
}

#[test]
fn verify_by_each_key() {
    let mut db = Database::new();
    let c = Creator::new(&text("ed"), &text("e@x.com"), None, &text("pw"), &mut db).unwrap();
    assert_eq!(Creator::verify_by_id(&c.id, &text("pw"), &db), Ok(()));
    assert_eq!(Creator::verify_by_email(text("e@x.com"), &text("nope"), &db), Err(ApiError::Unauthorized));
    assert_eq!(Creator::verify_by_id(&(c.id ^ 1), &text("pw"), &db), Err(ApiError::NotFound));
}

#[test]
fn update_applies_only_given_fields() {
    let mut db = Database::new();
    let c = Creator::new(&text("fay"), &text("f@x.com"), Some(text("old-pic")), &text("pw"), &mut db).unwrap();
    let n = Creator::update(&c.id, Some("f2@x.com"), "pw", None, None, &mut db).unwrap();
    assert_eq!(n.email, "f2@x.com");
    assert_eq!(n.name, "fay");
    assert_eq!(n.pfp, Some(text("old-pic")));
    assert_eq!(n.created, c.created);
    assert_eq!(Creator::verify_by_id(&c.id, &text("pw"), &db), Ok(()));
    let m = Creator::update(&c.id, None, "pw", None, Some("new-pic"), &mut db).unwrap();
    assert_eq!(m.email, "f2@x.com");
    assert_eq!(m.pfp, Some(text("new-pic")));
    assert_eq!(Creator::get_by_email(text("f@x.com"), &db).unwrap_err(), ApiError::NotFound);
}

#[test]
fn update_rehashes_a_new_password() {
    let mut db = Database::new();
    let c = Creator::new(&text("gus"), &text("g@x.com"), None, &text("old"), &mut db).unwrap();
    Creator::update(&c.id, None, "old", Some("new"), None, &mut db).unwrap();
    assert_eq!(Creator::verify_by_id(&c.id, &text("old"), &db), Err(ApiError::Unauthorized));
    assert_eq!(Creator::verify_by_id(&c.id, &text("new"), &db), Ok(()));
}

#[test]
fn update_refusals() {
    let mut db = Database::new();
    let c = Creator::new(&text("hal"), &text("h@x.com"), None, &text("pw"), &mut db).unwrap();
    Creator::new(&text("ida"), &text("i@x.com"), None, &text("pw2"), &mut db).unwrap();
    assert_eq!(Creator::update(&(c.id ^ 1), None, "pw", None, None, &mut db).unwrap_err(), ApiError::NotFound);
    assert_eq!(Creator::update(&c.id, Some("z@x.com"), "bad", None, None, &mut db).unwrap_err(), ApiError::Unauthorized);
    assert_eq!(Creator::update(&c.id, Some("i@x.com"), "pw", None, None, &mut db).unwrap_err(), ApiError::AlreadyExists);
    assert_eq!(Creator::get_by_id(c.id, &db).unwrap().email, "h@x.com");
    assert_eq!(Creator::update(&c.id, Some("h@x.com"), "pw", None, None, &mut db).unwrap().email, "h@x.com");
}

#[test]
fn delete_waits_for_sessions_to_be_revoked() {
    let mut db = Database::new();
    let c = Creator::new(&text("jo"), &text("j@x.com"), None, &text("pw"), &mut db).unwrap();
    Session::issue(c.id, 9, 0, &mut db).unwrap();
    assert_eq!(Creator::delete_by_id(&c.id, &mut db), Err(ApiError::InternalServerError));
    assert!(Creator::get_by_id(c.id, &db).is_ok());
    Session::remove_by_subject(c.id, &mut db);
    assert_eq!(Creator::delete_by_id(&c.id, &mut db), Ok(()));
    assert_eq!(Creator::get_by_id(c.id, &db).unwrap_err(), ApiError::NotFound);
    assert_eq!(Creator::delete_by_id(&c.id, &mut db), Ok(()));
}

#[test]
fn insert_is_exact_about_its_outcomes() {
    let mut db = Database::new();
    let c = Creator::insert(&text("kim"), &text("k@x.com"), None, text("$h"), 5, 77, &mut db).unwrap();
    assert_eq!(c.id, 5);
    assert_eq!(c.created, 77);
    assert_eq!(c.pfp, None);
    let clash = Creator::insert(&text("lee"), &text("l@x.com"), None, text("$h"), 5, 78, &mut db);
    assert_eq!(clash.unwrap_err(), ApiError::InternalServerError);
    let taken = Creator::insert(&text("kim"), &text("l@x.com"), None, text("$h"), 6, 78, &mut db);
    assert_eq!(taken.unwrap_err(), ApiError::AlreadyExists);
    assert_eq!(Creator::get_by_name(text("lee"), &db).unwrap_err(), ApiError::NotFound);
    assert_eq!(Creator::get_by_id(5, &db).unwrap().name, "kim");
}
