use vstd::prelude::*;
use crate::creator::{check_result, opt_view, update_effect, Creator, CreatorModel};
use crate::database::{Database, DatabaseModel};
use crate::error::ApiError;
use crate::ident::{format_uuid, uuid_parse, uuid_text};
use crate::password::argon2_verdict;
use crate::session::{matching, Session};

verus! {

/// A sign-in: `name` is the account's name or its email.
#[derive(Debug, Clone)]
pub struct SignInRequest {
    pub name: String,
    pub password: String,
}

#[derive(Debug, Clone)]
pub struct SignInResponse {
    pub token: String,
}

#[derive(Debug, Clone)]
pub struct SignUpRequest {
    pub name: String,
    pub email: String,
    pub password: String,
}

#[derive(Debug, Clone, Copy, PartialEq, Eq, Structural)]
pub struct SignUpResponse {
    pub token: u128,
}

/// An update of the signed-in account: each optional field is applied only
/// where it is given; `current_password` must check first.
#[derive(Debug, Clone)]
pub struct UpdateUserRequest {
    pub email: Option<String>,
    pub current_password: String,
    pub password: Option<String>,
    pub pfp: Option<String>,
}

#[derive(Debug, Clone)]
pub struct DeleteRequest {
    pub password: String,
}

/// `after` is `before` with one session more, for `subject`, whose token
/// was not live before.
pub open spec fn one_session_added(before: DatabaseModel, after: DatabaseModel, subject: u128) -> bool {
    &&& after.creators == before.creators
    &&& after.sessions.len() == before.sessions.len() + 1
    &&& after.sessions.drop_last() == before.sessions
    &&& after.sessions.last().subject == subject
    &&& !before.has_token(after.sessions.last().token)
}

/// The account that a sign-in key names: the creator with that name, or
/// else the one with that email.
pub open spec fn sign_in_target(db: DatabaseModel, key: Seq<char>) -> Option<CreatorModel> {
    match db.creator_by_name(key) {
        Some(c) => Some(c),
        None => db.creator_by_email(key),
    }
}

/// Signs in by name or email and password and opens a session, whose token
/// comes back as text. Fails with `NotFound` for an unknown name and email
/// and `Unauthorized` for a wrong password; otherwise only a failing random
/// source or clock, a token that happens to be in use, or an unusable stored
/// hash stops it.
pub fn sign_in(req: &SignInRequest, db: &mut Database) -> (r: Result<SignInResponse, ApiError>)
    requires
        old(db)@.wf(),
    ensures
        final(db)@.wf(),
        check_result(sign_in_target(old(db)@, req.name@), req.password@) matches Err(e)
            ==> r == Err::<SignInResponse, ApiError>(e) && final(db)@ == old(db)@,
        r matches Ok(resp) ==> {
            &&& check_result(sign_in_target(old(db)@, req.name@), req.password@) is Ok
            &&& sign_in_target(old(db)@, req.name@) matches Some(c)
                && one_session_added(old(db)@, final(db)@, c.id)
            &&& resp.token@ == uuid_text(final(db)@.sessions.last().token)
            &&& uuid_parse(resp.token@) == Some(final(db)@.sessions.last().token)
        },
        r matches Err(e) ==> final(db)@ == old(db)@
            && (check_result(sign_in_target(old(db)@, req.name@), req.password@) is Ok
                ==> e == ApiError::InternalServerError),
{
    let creator = match Creator::get_by_name(req.name.clone(), db) {
        Ok(c) => c,
        Err(_) => match Creator::get_by_email(req.name.clone(), db) {
            Ok(c) => c,
            Err(e) => return Err(e),
        },
    };
    match creator.verify(&req.password) {
        Ok(()) => {},
        Err(e) => return Err(e),
    }
    let session = match Session::new(creator.id, db) {
        Ok(s) => s,
        Err(_) => return Err(ApiError::InternalServerError),
    };
    proof {
        assert(db@.sessions.drop_last() =~= old(db)@.sessions);
        assert(db@.sessions.last() == session);
    }
    Ok(SignInResponse { token: format_uuid(session.token) })
}

/// Signs up: creates the account and opens its first session. Fails with
/// `AlreadyExists` exactly where the name or the email is taken; otherwise
/// only a failing hasher, random source or clock, or a random id or token
/// that happens to be in use (`InternalServerError`), stops it. A failure
/// changes nothing.
pub fn sign_up(req: &SignUpRequest, db: &mut Database) -> (r: Result<SignUpResponse, ApiError>)
    requires
        old(db)@.wf(),
    ensures
        final(db)@.wf(),
        old(db)@.has_name(req.name@) || old(db)@.has_email(req.email@)
            ==> r == Err::<SignUpResponse, ApiError>(ApiError::AlreadyExists),
        r matches Ok(resp) ==> {
            let c = final(db)@.creators.last();
            &&& final(db)@.creators.len() == old(db)@.creators.len() + 1
            &&& final(db)@.creators.drop_last() == old(db)@.creators
            &&& c.name == req.name@
            &&& c.email == req.email@
            &&& c.pfp is None
            &&& argon2_verdict(c.pw_hash, req.password@) == Some(true)
            &&& final(db)@.sessions.len() == old(db)@.sessions.len() + 1
            &&& final(db)@.sessions.drop_last() == old(db)@.sessions
            &&& final(db)@.sessions.last().subject == c.id
            &&& final(db)@.sessions.last().token == resp.token
        },
        r matches Err(e) ==> {
            &&& (e == ApiError::AlreadyExists
                <==> (old(db)@.has_name(req.name@) || old(db)@.has_email(req.email@)))
            &&& (e == ApiError::AlreadyExists || e == ApiError::InternalServerError)
            &&& final(db)@ == old(db)@
        },
{
    let creator = match Creator::new(&req.name, &req.email, None, &req.password, db) {
        Ok(c) => c,
        Err(e) => return Err(e),
    };
    let ghost mid = db@;
    proof {
        assert(mid.creators.last() == creator@);
        assert(mid.has_id(creator@.id)) by {
            assert(mid.creators[mid.creators.len() - 1].id == creator@.id);
        }
        assert(mid.creators.drop_last() =~= old(db)@.creators);
    }
    match Session::new(creator.id, db) {
        Ok(s) => Ok(SignUpResponse { token: s.token }),
        Err(_) => {
            // The account cannot be signed in: take it back out.
            db.creators.pop();
            proof {
                assert(db@.creators =~= old(db)@.creators);
                assert(db@.sessions == old(db)@.sessions);
            }
            Err(ApiError::InternalServerError)
        },
    }
}

/// Updates the signed-in account: the session's subject is the account
/// changed, never an id that the client supplies.
pub fn update(session: &Session, req: &UpdateUserRequest, db: &mut Database) -> (r: Result<Creator, ApiError>)
    requires
        old(db)@.wf(),
    ensures
        final(db)@.wf(),
        update_effect(
            old(db)@,
            final(db)@,
            session.subject,
            opt_view(req.email),
            req.current_password@,
            opt_view(req.password),
            opt_view(req.pfp),
            r,
        ),
{
    let email = match &req.email {
        Some(e) => Some(e.as_str()),
        None => None,
    };
    let password = match &req.password {
        Some(p) => Some(p.as_str()),
        None => None,
    };
    let pfp = match &req.pfp {
        Some(p) => Some(p.as_str()),
        None => None,
    };
    Creator::update(&session.subject, email, req.current_password.as_str(), password, pfp, db)
}

/// Deletes the signed-in account after checking its password: revokes all
/// its sessions, then removes it.
pub fn delete(req: &DeleteRequest, session: &Session, db: &mut Database) -> (r: Result<(), ApiError>)
    requires
        old(db)@.wf(),
    ensures
        final(db)@.wf(),
        check_result(old(db)@.creator_by_id(session.subject), req.password@) matches Err(e)
            ==> r == Err::<(), ApiError>(e) && final(db)@ == old(db)@,
        check_result(old(db)@.creator_by_id(session.subject), req.password@) is Ok ==> {
            &&& r == Ok::<(), ApiError>(())
            &&& final(db)@.sessions == old(db)@.without_subject(session.subject)
            &&& final(db)@.creators == old(db)@.creators_without(session.subject)
        },
{
    match Creator::verify_by_id(&session.subject, &req.password, db) {
        Ok(()) => {},
        Err(e) => return Err(e),
    }
    Session::remove_by_subject(session.subject, db);
    proof {
        let m = db@;
        let pred = matching(session.subject, false, false);
        if m.has_sessions_of(session.subject) {
            let k = choose|k: int| 0 <= k < m.sessions.len() && #[trigger] m.sessions[k].subject == session.subject;
            old(db)@.sessions.lemma_filter_pred(pred, k);
        }
    }
    Creator::delete_by_id(&session.subject, db)
}

/// The object key under which the signed-in creator's profile picture is stored.
pub fn upload_pfp(session: &Session) -> (key: String)
    ensures
        key@ == "pfp-"@ + uuid_text(session.subject),
{
    let mut key = String::from_str("pfp-");
    let id = format_uuid(session.subject);
    key.append(id.as_str());
    key
}

/// The version of the interface.
pub fn get_version() -> (r: String)
    ensures
        r@ == "v1"@,
{
    String::from_str("v1")
}

} // verus!
