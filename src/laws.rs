use vstd::prelude::*;
use crate::creator::{check_result, update_effect, Creator, CreatorModel};
use crate::database::{lemma_creator_by_id, DatabaseModel};
use crate::error::ApiError;
use crate::password::argon2_verdict;
use crate::database::lemma_session_by_token;
use crate::ident::{nibble, uuid_parse, uuid_text};
use crate::session::{bearer_prefix, matching, Session};

verus! {

/// A creator that has just been created verifies with the password it was
/// created with, whether it is looked up by id, by name or by email.
pub proof fn created_creator_verifies(
    before: DatabaseModel,
    after: DatabaseModel,
    c: CreatorModel,
    password: Seq<char>,
)
    requires
        before.wf(),
        !before.has_id(c.id),
        !before.has_name(c.name),
        !before.has_email(c.email),
        argon2_verdict(c.pw_hash, password) == Some(true),
        after.creators == before.creators.push(c),
    ensures
        check_result(after.creator_by_id(c.id), password) == Ok::<(), ApiError>(()),
        check_result(after.creator_by_name(c.name), password) == Ok::<(), ApiError>(()),
        check_result(after.creator_by_email(c.email), password) == Ok::<(), ApiError>(()),
{
    let last = before.creators.len() as int;
    assert(after.creators[last] == c);
    assert(after.has_id(c.id));
    assert(after.has_name(c.name));
    assert(after.has_email(c.email));
    let i = choose|i: int| 0 <= i < after.creators.len() && #[trigger] after.creators[i].id == c.id;
    if i != last {
        assert(after.creators[i] == before.creators[i]);
    }
    let j = choose|j: int| 0 <= j < after.creators.len() && #[trigger] after.creators[j].name == c.name;
    if j != last {
        assert(after.creators[j] == before.creators[j]);
    }
    let k = choose|k: int| 0 <= k < after.creators.len() && #[trigger] after.creators[k].email == c.email;
    if k != last {
        assert(after.creators[k] == before.creators[k]);
    }
}

/// After an update that sets a new password succeeds, checking the account
/// with that new password succeeds.
pub proof fn updated_password_verifies(
    before: DatabaseModel,
    after: DatabaseModel,
    id: u128,
    email: Option<Seq<char>>,
    current_password: Seq<char>,
    password: Seq<char>,
    pfp: Option<Seq<char>>,
    n: Creator,
)
    requires
        before.wf(),
        after.wf(),
        update_effect(before, after, id, email, current_password, Some(password), pfp, Ok::<Creator, ApiError>(n)),
    ensures
        check_result(after.creator_by_id(id), password) == Ok::<(), ApiError>(()),
{
    let i = choose|i: int| 0 <= i < before.creators.len() && #[trigger] before.creators[i].id == id;
    assert(after.creators[i] == n@);
    lemma_creator_by_id(after, i);
}

/// Once a creator has been created, creating another one with the same
/// name meets a taken name, whatever its email: of two creations with one
/// name, only the first succeeds and the second fails with `AlreadyExists`.
pub proof fn same_name_is_taken(before: DatabaseModel, after: DatabaseModel, c: CreatorModel, email: Seq<char>)
    requires
        after.creators == before.creators.push(c),
    ensures
        after.has_name(c.name),
        after.has_name(c.name) || after.has_email(email),
{
    assert(after.creators[before.creators.len() as int] == c);
}

/// Looking up the token of a session that has just been created gives that
/// session, and so its subject.
pub proof fn issued_session_resolves(before: DatabaseModel, after: DatabaseModel, s: Session)
    requires
        before.wf(),
        !before.has_token(s.token),
        after.sessions == before.sessions.push(s),
    ensures
        after.session_by_token(s.token) == Ok::<Session, ApiError>(s),
        after.session_by_token(s.token) matches Ok(found) && found.subject == s.subject,
{
    let last = before.sessions.len() as int;
    assert(after.sessions[last] == s);
    assert(after.has_token(s.token));
    let j = choose|j: int| 0 <= j < after.sessions.len() && #[trigger] after.sessions[j].token == s.token;
    if j != last {
        assert(after.sessions[j] == before.sessions[j]);
    }
}

/// A token that is no token, or that was never issued, fails with
/// `Unauthorized`; authentication never fails with another kind, `NotFound`
/// in particular.
pub proof fn bad_tokens_are_unauthorized(db: DatabaseModel, header: Option<Seq<char>>, token: u128)
    ensures
        db.resolve(None) == Err::<Session, ApiError>(ApiError::Unauthorized),
        !db.has_token(token) ==> db.resolve(Some(token)) == Err::<Session, ApiError>(ApiError::Unauthorized),
        db.authenticate(header) is Ok || db.authenticate(header) == Err::<Session, ApiError>(ApiError::Unauthorized),
        db.authenticate(header) != Err::<Session, ApiError>(ApiError::NotFound),
{
}

/// The text of a live session's token authenticates that session, whether
/// it is sent bare or after `Bearer `: the token that signing in hands out
/// is accepted.
pub proof fn token_text_authenticates(db: DatabaseModel, i: int, text: Seq<char>)
    requires
        db.wf(),
        0 <= i < db.sessions.len(),
        text == uuid_text(db.sessions[i].token),
        uuid_parse(text) == Some(db.sessions[i].token),
    ensures
        db.authenticate(Some(text)) == Ok::<Session, ApiError>(db.sessions[i]),
        db.authenticate(Some(bearer_prefix() + text)) == Ok::<Session, ApiError>(db.sessions[i]),
{
    lemma_session_by_token(db, i);
    let n = nibble(db.sessions[i].token, 0);
    assert(0 <= n < 16);
    assert(text[0] == uuid_text(db.sessions[i].token)[0]);
    assert(text[0] != 'B') by {
        if n == 11 {
            assert(text[0] == 'b');
        }
    }
    assert(text.subrange(0, 7)[0] != bearer_prefix()[0]);
    let with = bearer_prefix() + text;
    assert(with.subrange(0, 7) =~= bearer_prefix());
    assert(with.subrange(7, with.len() as int) =~= text);
}

/// After all sessions of a subject are revoked, every token that was issued
/// to it fails with `Unauthorized`.
pub proof fn revoked_tokens_are_unauthorized(
    before: DatabaseModel,
    after: DatabaseModel,
    subject: u128,
    token: u128,
)
    requires
        before.wf(),
        after.sessions == before.without_subject(subject),
        exists|i: int|
            0 <= i < before.sessions.len() && #[trigger] before.sessions[i].token == token
                && before.sessions[i].subject == subject,
    ensures
        after.session_by_token(token) == Err::<Session, ApiError>(ApiError::Unauthorized),
        after.resolve(Some(token)) == Err::<Session, ApiError>(ApiError::Unauthorized),
{
    let pred = matching(subject, false, false);
    let i = choose|i: int|
        0 <= i < before.sessions.len() && #[trigger] before.sessions[i].token == token
            && before.sessions[i].subject == subject;
    if after.has_token(token) {
        let k = choose|k: int| 0 <= k < after.sessions.len() && #[trigger] after.sessions[k].token == token;
        before.sessions.lemma_filter_pred(pred, k);
        assert(after.sessions.contains(after.sessions[k]));
        before.sessions.lemma_filter_contains_rev(pred, after.sessions[k]);
        let j = choose|j: int| 0 <= j < before.sessions.len() && before.sessions[j] == after.sessions[k];
        assert(before.sessions[j].token == before.sessions[i].token);
    }
}

} // verus!
