use vstd::prelude::*;
use crate::database::{
    lemma_creator_by_email, lemma_creator_by_id, lemma_creator_by_name, Database, DatabaseModel,
};
use crate::error::ApiError;
use crate::ident::{now_millis, random_uuid};
use crate::password::{argon2_verdict, hash, verdict_result, verify};

verus! {

/// A registered account.
#[derive(Debug, Clone)]
pub struct Creator {
    pub id: u128,
    pub name: String,
    pub email: String,
    pub pfp: Option<String>,
    pub(crate) pw_hash: String,
    /// Milliseconds since the Unix epoch.
    pub created: i64,
}

/// The value of a [`Creator`], its password hash included.
pub ghost struct CreatorModel {
    pub id: u128,
    pub name: Seq<char>,
    pub email: Seq<char>,
    pub pfp: Option<Seq<char>>,
    pub pw_hash: Seq<char>,
    pub created: i64,
}

/// The text of an optional `String`.
pub open spec fn opt_view(s: Option<String>) -> Option<Seq<char>> {
    match s {
        Some(t) => Some(t@),
        None => None,
    }
}

impl View for Creator {
    type V = CreatorModel;

    open(crate) spec fn view(&self) -> CreatorModel {
        CreatorModel {
            id: self.id,
            name: self.name@,
            email: self.email@,
            pfp: opt_view(self.pfp),
            pw_hash: self.pw_hash@,
            created: self.created,
        }
    }
}

/// The text of an optional `&str`.
pub open spec fn str_view(s: Option<&str>) -> Option<Seq<char>> {
    match s {
        Some(t) => Some(t@),
        None => None,
    }
}

/// `r` is the answer to a lookup whose row, if any, is `row`.
pub open spec fn lookup_result(row: Option<CreatorModel>, r: Result<Creator, ApiError>) -> bool {
    match r {
        Ok(c) => row == Some(c@),
        Err(e) => row is None && e == ApiError::NotFound,
    }
}

/// What checking `password` against the creator `row`, if any, comes to.
pub open spec fn check_result(row: Option<CreatorModel>, password: Seq<char>) -> Result<(), ApiError> {
    match row {
        None => Err(ApiError::NotFound),
        Some(c) => verdict_result(argon2_verdict(c.pw_hash, password)),
    }
}

/// What stops an update before anything is hashed or written: an unknown
/// id, a current password that does not check, or an email that another
/// creator uses.
pub open spec fn update_refusal(
    db: DatabaseModel,
    id: u128,
    email: Option<Seq<char>>,
    current_password: Seq<char>,
) -> Option<ApiError> {
    match db.creator_by_id(id) {
        None => Some(ApiError::NotFound),
        Some(c) => match verdict_result(argon2_verdict(c.pw_hash, current_password)) {
            Err(e) => Some(e),
            Ok(_) => match email {
                Some(e) => if db.email_taken_by_other(e, id) {
                    Some(ApiError::AlreadyExists)
                } else {
                    None
                },
                None => None,
            },
        },
    }
}

/// `n` is `c` with each supplied field applied and every other field kept;
/// a new password is stored as a hash that verifies against it.
pub open spec fn updated_from(
    c: CreatorModel,
    n: CreatorModel,
    email: Option<Seq<char>>,
    password: Option<Seq<char>>,
    pfp: Option<Seq<char>>,
) -> bool {
    &&& n.id == c.id
    &&& n.name == c.name
    &&& n.created == c.created
    &&& n.email == match email {
        Some(e) => e,
        None => c.email,
    }
    &&& n.pfp == match pfp {
        Some(p) => Some(p),
        None => c.pfp,
    }
    &&& match password {
        Some(p) => argon2_verdict(n.pw_hash, p) == Some(true),
        None => n.pw_hash == c.pw_hash,
    }
}

/// What an update of the creator with `id` did: it failed as
/// `update_refusal` says and changed nothing; or it failed only where a new
/// password could not be hashed; or it replaced that creator's row by the
/// updated one it returned.
pub open spec fn update_effect(
    before: DatabaseModel,
    after: DatabaseModel,
    id: u128,
    email: Option<Seq<char>>,
    current_password: Seq<char>,
    password: Option<Seq<char>>,
    pfp: Option<Seq<char>>,
    r: Result<Creator, ApiError>,
) -> bool {
    match update_refusal(before, id, email, current_password) {
        Some(e) => r == Err::<Creator, ApiError>(e) && after == before,
        None => match r {
            Ok(n) => {
                &&& before.creator_by_id(id) matches Some(c) && updated_from(c, n@, email, password, pfp)
                &&& after.creators == replace_creator(before.creators, n@)
                &&& after.sessions == before.sessions
            },
            Err(e) => e == ApiError::InternalServerError && password is Some && after == before,
        },
    }
}

/// The creator table with the row whose id is `n.id` replaced by `n`.
pub open spec fn replace_creator(creators: Seq<CreatorModel>, n: CreatorModel) -> Seq<CreatorModel> {
    creators.map_values(|c: CreatorModel| if c.id == n.id { n } else { c })
}

/// Keeps the creators whose id is not `id`.
pub open spec fn id_other_than(id: u128) -> spec_fn(CreatorModel) -> bool {
    |c: CreatorModel| c.id != id
}

impl DatabaseModel {
    /// The creator table without the creator with `id`.
    pub open spec fn creators_without(self, id: u128) -> Seq<CreatorModel> {
        self.creators.filter(id_other_than(id))
    }
}

impl Creator {
    pub(crate) fn snapshot(&self) -> (r: Creator)
        ensures
            r@ == self@,
    {
        let pfp = match &self.pfp {
            Some(p) => Some(p.clone()),
            None => None,
        };
        Creator {
            id: self.id,
            name: self.name.clone(),
            email: self.email.clone(),
            pfp,
            pw_hash: self.pw_hash.clone(),
            created: self.created,
        }
    }
}

impl Creator {
    /// Records an account under `id` with the stored hash `pw_hash`, created
    /// at `created`. Fails with `AlreadyExists` exactly where the name or the
    /// email is taken, otherwise with `InternalServerError` exactly where `id`
    /// is in use, and then changes nothing.
    pub fn insert(
        name: &String,
        email: &String,
        pfp: Option<String>,
        pw_hash: String,
        id: u128,
        created: i64,
        db: &mut Database,
    ) -> (r: Result<Creator, ApiError>)
        requires
            old(db)@.wf(),
        ensures
            final(db)@.wf(),
            old(db)@.has_name(name@) || old(db)@.has_email(email@)
                ==> r == Err::<Creator, ApiError>(ApiError::AlreadyExists),
            !(old(db)@.has_name(name@) || old(db)@.has_email(email@)) && old(db)@.has_id(id)
                ==> r == Err::<Creator, ApiError>(ApiError::InternalServerError),
            !(old(db)@.has_name(name@) || old(db)@.has_email(email@)) && !old(db)@.has_id(id) ==> {
                &&& r matches Ok(c) && c@ == (CreatorModel {
                    id,
                    name: name@,
                    email: email@,
                    pfp: opt_view(pfp),
                    pw_hash: pw_hash@,
                    created,
                })
                &&& final(db)@.creators == old(db)@.creators.push(r->Ok_0@)
                &&& final(db)@.sessions == old(db)@.sessions
            },
            r is Err ==> final(db)@ == old(db)@,
    {
        if db.find_name(name).is_some() || db.find_email(email, None).is_some() {
            return Err(ApiError::AlreadyExists);
        }
        if db.find_id(id).is_some() {
            return Err(ApiError::InternalServerError);
        }
        let c = Creator { id, name: name.clone(), email: email.clone(), pfp, pw_hash, created };
        let out = c.snapshot();
        let ghost before = db@;
        let ghost cm = c@;
        db.creators.push(c);
        proof {
            let m = db@;
            assert(before.wf());
            assert(m.creators =~= before.creators.push(cm));
            assert(m.sessions == before.sessions);
            assert forall|i: int, j: int|
                0 <= i < m.creators.len() && 0 <= j < m.creators.len() && i != j implies {
                &&& #[trigger] m.creators[i].id != #[trigger] m.creators[j].id
                &&& m.creators[i].name != m.creators[j].name
                &&& m.creators[i].email != m.creators[j].email
            } by {
                let last = before.creators.len() as int;
                if i == last {
                    assert(m.creators[j] == before.creators[j]);
                } else if j == last {
                    assert(m.creators[i] == before.creators[i]);
                } else {
                    assert(m.creators[i] == before.creators[i]);
                    assert(m.creators[j] == before.creators[j]);
                }
            }
            assert forall|k: int| 0 <= k < m.sessions.len() implies m.has_id(#[trigger] m.sessions[k].subject) by {
                let subject = m.sessions[k].subject;
                assert(before.sessions[k] == m.sessions[k]);
                assert(before.has_id(subject));
                let j = choose|j: int| 0 <= j < before.creators.len() && #[trigger] before.creators[j].id == subject;
                assert(m.creators[j] == before.creators[j]);
            }
        }
        Ok(out)
    }

    /// Creates an account: hashes `password` with a fresh salt, draws a
    /// random id and reads the clock, then records the row with `insert`.
    /// Fails with `AlreadyExists` exactly where the name or the email is
    /// taken. `InternalServerError` comes only from a failing hasher, random
    /// source or clock, or from a drawn id that is in use (see `insert`).
    /// The stored hash verifies against `password`.
    pub fn new(
        name: &String,
        email: &String,
        pfp: Option<String>,
        password: &String,
        db: &mut Database,
    ) -> (r: Result<Creator, ApiError>)
        requires
            old(db)@.wf(),
        ensures
            final(db)@.wf(),
            old(db)@.has_name(name@) || old(db)@.has_email(email@)
                ==> r == Err::<Creator, ApiError>(ApiError::AlreadyExists),
            r matches Ok(c) ==> {
                &&& c@.name == name@
                &&& c@.email == email@
                &&& c@.pfp == opt_view(pfp)
                &&& argon2_verdict(c@.pw_hash, password@) == Some(true)
                &&& !old(db)@.has_id(c@.id)
                &&& final(db)@.creators == old(db)@.creators.push(c@)
                &&& final(db)@.sessions == old(db)@.sessions
            },
            r matches Err(e) ==> {
                &&& final(db)@ == old(db)@
                &&& (e == ApiError::AlreadyExists <==> (old(db)@.has_name(name@) || old(db)@.has_email(email@)))
                &&& (e == ApiError::AlreadyExists || e == ApiError::InternalServerError)
            },
    {
        if db.find_name(name).is_some() || db.find_email(email, None).is_some() {
            return Err(ApiError::AlreadyExists);
        }
        let pw_hash = match hash(password.as_str()) {
            Ok(h) => h,
            Err(e) => return Err(e),
        };
        let id = match random_uuid() {
            Some(id) => id,
            None => return Err(ApiError::InternalServerError),
        };
        let created = match now_millis() {
            Some(t) => t,
            None => return Err(ApiError::InternalServerError),
        };
        Creator::insert(name, email, pfp, pw_hash, id, created, db)
    }

    /// The creator with `id`; `NotFound` where there is none.
    pub fn get_by_id(id: u128, db: &Database) -> (r: Result<Creator, ApiError>)
        requires
            db@.wf(),
        ensures
            lookup_result(db@.creator_by_id(id), r),
    {
        match db.find_id(id) {
            Some(i) => {
                proof {
                    lemma_creator_by_id(db@, i as int);
                }
                Ok(db.creators[i].snapshot())
            },
            None => Err(ApiError::NotFound),
        }
    }

    /// The creator named `name`; `NotFound` where there is none.
    pub fn get_by_name(name: String, db: &Database) -> (r: Result<Creator, ApiError>)
        requires
            db@.wf(),
        ensures
            lookup_result(db@.creator_by_name(name@), r),
    {
        match db.find_name(&name) {
            Some(i) => {
                proof {
                    lemma_creator_by_name(db@, i as int);
                }
                Ok(db.creators[i].snapshot())
            },
            None => Err(ApiError::NotFound),
        }
    }

    /// The creator whose email is `email`; `NotFound` where there is none.
    pub fn get_by_email(email: String, db: &Database) -> (r: Result<Creator, ApiError>)
        requires
            db@.wf(),
        ensures
            lookup_result(db@.creator_by_email(email@), r),
    {
        match db.find_email(&email, None) {
            Some(i) => {
                proof {
                    lemma_creator_by_email(db@, i as int);
                }
                Ok(db.creators[i].snapshot())
            },
            None => Err(ApiError::NotFound),
        }
    }

    /// Checks `password` against this creator's stored hash: `Unauthorized`
    /// on a mismatch, `InternalServerError` where the stored hash is unusable.
    pub fn verify(&self, password: &String) -> (r: Result<(), ApiError>)
        ensures
            r == verdict_result(argon2_verdict(self@.pw_hash, password@)),
    {
        verify(self.pw_hash.as_str(), password.as_str())
    }

    /// Checks the password of the creator with `id`.
    pub fn verify_by_id(id: &u128, password: &String, db: &Database) -> (r: Result<(), ApiError>)
        requires
            db@.wf(),
        ensures
            r == check_result(db@.creator_by_id(*id), password@),
    {
        match Creator::get_by_id(*id, db) {
            Ok(c) => c.verify(password),
            Err(e) => Err(e),
        }
    }

    /// Checks the password of the creator named `name`.
    pub fn verify_by_name(name: String, password: &String, db: &Database) -> (r: Result<(), ApiError>)
        requires
            db@.wf(),
        ensures
            r == check_result(db@.creator_by_name(name@), password@),
    {
        match Creator::get_by_name(name, db) {
            Ok(c) => c.verify(password),
            Err(e) => Err(e),
        }
    }

    /// Checks the password of the creator whose email is `email`.
    pub fn verify_by_email(email: String, password: &String, db: &Database) -> (r: Result<(), ApiError>)
        requires
            db@.wf(),
        ensures
            r == check_result(db@.creator_by_email(email@), password@),
    {
        match Creator::get_by_email(email, db) {
            Ok(c) => c.verify(password),
            Err(e) => Err(e),
        }
    }

    /// Updates the account with `id` after checking `current_password`
    /// against its stored hash. Each of `email`, `password` and `pfp` is
    /// applied only where it is given; a new password is hashed before it is
    /// stored. Fails as `update_refusal` says, and otherwise only where the
    /// hasher fails on a new password (`InternalServerError`).
    pub fn update(
        id: &u128,
        email: Option<&str>,
        current_password: &str,
        password: Option<&str>,
        pfp: Option<&str>,
        db: &mut Database,
    ) -> (r: Result<Creator, ApiError>)
        requires
            old(db)@.wf(),
        ensures
            final(db)@.wf(),
            update_effect(
                old(db)@,
                final(db)@,
                *id,
                str_view(email),
                current_password@,
                str_view(password),
                str_view(pfp),
                r,
            ),
    {
        let i = match db.find_id(*id) {
            Some(i) => i,
            None => return Err(ApiError::NotFound),
        };
        proof {
            lemma_creator_by_id(db@, i as int);
        }
        match verify(db.creators[i].pw_hash.as_str(), current_password) {
            Ok(()) => {},
            Err(e) => return Err(e),
        }
        let new_email: Option<String> = match email {
            Some(e) => Some(e.to_owned()),
            None => None,
        };
        match &new_email {
            Some(e) => {
                if db.find_email(e, Some(*id)).is_some() {
                    return Err(ApiError::AlreadyExists);
                }
            },
            None => {},
        }
        let new_hash: Option<String> = match password {
            Some(p) => match hash(p) {
                Ok(h) => Some(h),
                Err(e) => return Err(e),
            },
            None => None,
        };
        let mut n = db.creators[i].snapshot();
        match new_email {
            Some(e) => n.email = e,
            None => {},
        }
        match new_hash {
            Some(h) => n.pw_hash = h,
            None => {},
        }
        match pfp {
            Some(p) => n.pfp = Some(p.to_owned()),
            None => {},
        }
        let out = n.snapshot();
        let ghost before = db@;
        let ghost nm = n@;
        db.creators[i] = n;
        proof {
            let m = db@;
            assert(before.wf());
            assert(m.sessions == before.sessions);
            assert(m.creators =~= before.creators.update(i as int, nm));
            assert(m.creators =~= replace_creator(before.creators, nm)) by {
                assert forall|k: int| 0 <= k < before.creators.len() implies
                    #[trigger] m.creators[k] == (if before.creators[k].id == nm.id { nm } else { before.creators[k] }) by {
                    if k != i as int {
                        assert(before.creators[k].id != before.creators[i as int].id);
                    }
                }
            }
            assert forall|a: int, b: int|
                0 <= a < m.creators.len() && 0 <= b < m.creators.len() && a != b implies {
                &&& #[trigger] m.creators[a].id != #[trigger] m.creators[b].id
                &&& m.creators[a].name != m.creators[b].name
                &&& m.creators[a].email != m.creators[b].email
            } by {
                assert(before.creators[a].id != before.creators[b].id);
                if a == i as int {
                    assert(m.creators[b] == before.creators[b]);
                    if m.creators[a].email == m.creators[b].email && new_email is Some {
                        assert(before.email_taken_by_other(nm.email, *id));
                    }
                } else if b == i as int {
                    assert(m.creators[a] == before.creators[a]);
                    if m.creators[a].email == m.creators[b].email && new_email is Some {
                        assert(before.email_taken_by_other(nm.email, *id));
                    }
                } else {
                    assert(m.creators[a] == before.creators[a]);
                    assert(m.creators[b] == before.creators[b]);
                }
            }
            assert forall|k: int| 0 <= k < m.sessions.len() implies m.has_id(#[trigger] m.sessions[k].subject) by {
                let subject = m.sessions[k].subject;
                assert(before.sessions[k] == m.sessions[k]);
                assert(before.has_id(subject));
                let j = choose|j: int| 0 <= j < before.creators.len() && #[trigger] before.creators[j].id == subject;
                assert(m.creators[j].id == before.creators[j].id);
            }
        }
        Ok(out)
    }

    /// Removes the account with `id`; removing an absent one is no error. The
    /// store refuses (`InternalServerError`) while sessions of it are live:
    /// revoke them first.
    pub fn delete_by_id(id: &u128, db: &mut Database) -> (r: Result<(), ApiError>)
        requires
            old(db)@.wf(),
        ensures
            final(db)@.wf(),
            old(db)@.has_sessions_of(*id) ==> r == Err::<(), ApiError>(ApiError::InternalServerError)
                && final(db)@ == old(db)@,
            !old(db)@.has_sessions_of(*id) ==> r == Ok::<(), ApiError>(())
                && final(db)@.creators == old(db)@.creators_without(*id)
                && final(db)@.sessions == old(db)@.sessions,
    {
        if db.find_subject(*id).is_some() {
            return Err(ApiError::InternalServerError);
        }
        let ghost pred = id_other_than(*id);
        let ghost all = db@.creators;
        let mut kept: Vec<Creator> = Vec::new();
        let ghost mut idx: Seq<int> = Seq::empty();
        let mut i: usize = 0;
        while i < db.creators.len()
            invariant
                i <= db.creators.len(),
                all == db@.creators,
                pred == id_other_than(*id),
                kept@.map_values(|c: Creator| c@) == all.subrange(0, i as int).filter(pred),
                idx.len() == kept@.len(),
                forall|k: int| 0 <= k < idx.len() ==> 0 <= #[trigger] idx[k] < i && kept@[k]@ == all[idx[k]],
                forall|k1: int, k2: int| 0 <= k1 < k2 < idx.len() ==> #[trigger] idx[k1] < #[trigger] idx[k2],
            decreases db.creators.len() - i,
        {
            proof {
                assert(all.subrange(0, i as int + 1) == all.subrange(0, i as int).push(all[i as int]));
                all.subrange(0, i as int).lemma_filter_push(all[i as int], pred);
            }
            if db.creators[i].id != *id {
                let c = db.creators[i].snapshot();
                let ghost before_kept = kept@;
                kept.push(c);
                proof {
                    assert(kept@.map_values(|c: Creator| c@) =~= before_kept.map_values(|c: Creator| c@).push(all[i as int]));
                    idx = idx.push(i as int);
                }
            }
            i = i + 1;
        }
        let ghost before = db@;
        db.creators = kept;
        proof {
            assert(all.subrange(0, all.len() as int) == all);
            let m = db@;
            assert(before.wf());
            assert(m.creators == all.filter(pred));
            assert(m.sessions == before.sessions);
            assert forall|a: int, b: int|
                0 <= a < m.creators.len() && 0 <= b < m.creators.len() && a != b implies {
                &&& #[trigger] m.creators[a].id != #[trigger] m.creators[b].id
                &&& m.creators[a].name != m.creators[b].name
                &&& m.creators[a].email != m.creators[b].email
            } by {
                assert(m.creators[a] == all[idx[a]]);
                assert(m.creators[b] == all[idx[b]]);
                if a < b {
                    assert(idx[a] < idx[b]);
                } else {
                    assert(idx[b] < idx[a]);
                }
                assert(all[idx[a]].id != all[idx[b]].id);
            }
            assert forall|k: int| 0 <= k < m.sessions.len() implies m.has_id(#[trigger] m.sessions[k].subject) by {
                let subject = m.sessions[k].subject;
                assert(before.sessions[k] == m.sessions[k]);
                assert(before.has_id(subject));
                let j = choose|j: int| 0 <= j < all.len() && #[trigger] all[j].id == subject;
                assert(subject != *id);
                all.lemma_filter_contains(pred, j);
                let t = choose|t: int| 0 <= t < m.creators.len() && m.creators[t] == all[j];
                assert(m.creators[t].id == subject);
            }
        }
        Ok(())
    }
}

} // verus!
