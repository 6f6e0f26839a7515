use vstd::prelude::*;
use crate::database::{lemma_session_by_token, Database, DatabaseModel};
use crate::error::ApiError;
use crate::ident::{now_millis, parse_uuid, random_uuid, uuid_parse};

verus! {

/// Evidence that a creator has authenticated: a bearer token bound to its
/// subject, the creator's id.
#[derive(Debug, Clone, Copy, PartialEq, Eq, Structural)]
pub struct Session {
    pub token: u128,
    pub subject: u128,
    /// Milliseconds since the Unix epoch.
    pub created: i64,
}

/// Selects the sessions whose token (`by_token`) or subject equals `key`
/// (`keep`), or those whose one differs from it (`!keep`).
pub open spec fn matching(key: u128, by_token: bool, keep: bool) -> spec_fn(Session) -> bool {
    |s: Session| ((if by_token { s.token } else { s.subject }) == key) == keep
}

/// Sessions in ascending order of creation time.
pub open spec fn sorted_by_created(s: Seq<Session>) -> bool {
    forall|a: int, b: int| 0 <= a < b < s.len() ==> #[trigger] s[a].created <= #[trigger] s[b].created
}

/// The optional scheme word in front of a token.
pub open spec fn bearer_prefix() -> Seq<char> {
    seq!['B', 'e', 'a', 'r', 'e', 'r', ' ']
}

/// An `Authorization` header value without its optional `Bearer ` prefix.
pub open spec fn strip_bearer(header: Seq<char>) -> Seq<char> {
    if header.len() >= 7 && header.subrange(0, 7) == bearer_prefix() {
        header.subrange(7, header.len() as int)
    } else {
        header
    }
}

impl DatabaseModel {
    /// The sessions of `subject`, in the order they were created.
    pub open spec fn sessions_of(self, subject: u128) -> Seq<Session> {
        self.sessions.filter(matching(subject, false, true))
    }

    /// The session table without the sessions of `subject`.
    pub open spec fn without_subject(self, subject: u128) -> Seq<Session> {
        self.sessions.filter(matching(subject, false, false))
    }

    /// The session table without the session with `token`.
    pub open spec fn without_token(self, token: u128) -> Seq<Session> {
        self.sessions.filter(matching(token, true, false))
    }

    /// The session that a parsed token resolves to; no token is an
    /// authentication failure.
    pub open spec fn resolve(self, parsed: Option<u128>) -> Result<Session, ApiError> {
        match parsed {
            None => Err(ApiError::Unauthorized),
            Some(token) => self.session_by_token(token),
        }
    }

    /// The session that an `Authorization` header value authenticates.
    pub open spec fn authenticate(self, header: Option<Seq<char>>) -> Result<Session, ApiError> {
        match header {
            None => Err(ApiError::Unauthorized),
            Some(h) => self.resolve(uuid_parse(strip_bearer(h))),
        }
    }
}

impl Database {
    /// The sessions that `matching(key, by_token, keep)` selects, in order.
    fn select_sessions(&self, key: u128, by_token: bool, keep: bool) -> (r: Vec<Session>)
        requires
            self@.wf(),
        ensures
            r@ == self@.sessions.filter(matching(key, by_token, keep)),
            forall|k: int| 0 <= k < r@.len() ==> self@.sessions.contains(#[trigger] r@[k]),
            forall|k1: int, k2: int|
                0 <= k1 < r@.len() && 0 <= k2 < r@.len() && k1 != k2
                    ==> #[trigger] r@[k1].token != #[trigger] r@[k2].token,
    {
        let ghost pred = matching(key, by_token, keep);
        let ghost all = self@.sessions;
        let mut out: Vec<Session> = Vec::new();
        let ghost mut idx: Seq<int> = Seq::empty();
        let mut i: usize = 0;
        while i < self.sessions.len()
            invariant
                i <= self.sessions.len(),
                all == self@.sessions,
                pred == matching(key, by_token, keep),
                self@.wf(),
                out@ == all.subrange(0, i as int).filter(pred),
                idx.len() == out@.len(),
                forall|k: int| 0 <= k < idx.len() ==> 0 <= #[trigger] idx[k] < i && out@[k] == all[idx[k]],
                forall|k1: int, k2: int| 0 <= k1 < k2 < idx.len() ==> #[trigger] idx[k1] < #[trigger] idx[k2],
            decreases self.sessions.len() - i,
        {
            let s = self.sessions[i];
            proof {
                assert(all.subrange(0, i as int + 1) == all.subrange(0, i as int).push(all[i as int]));
                all.subrange(0, i as int).lemma_filter_push(all[i as int], pred);
            }
            let column = if by_token { s.token } else { s.subject };
            proof {
                assert(pred(all[i as int]) == ((column == key) == keep));
            }
            if (column == key) == keep {
                out.push(s);
                proof {
                    idx = idx.push(i as int);
                }
            }
            i = i + 1;
        }
        proof {
            assert(all.subrange(0, all.len() as int) == all);
            assert forall|k: int| 0 <= k < out@.len() implies all.contains(#[trigger] out@[k]) by {
                assert(out@[k] == all[idx[k]]);
            }
            assert forall|k1: int, k2: int|
                0 <= k1 < out@.len() && 0 <= k2 < out@.len() && k1 != k2
                    implies #[trigger] out@[k1].token != #[trigger] out@[k2].token by {
                if k1 < k2 {
                    assert(idx[k1] < idx[k2]);
                } else {
                    assert(idx[k2] < idx[k1]);
                }
            }
        }
        out
    }

    /// Replaces the session table by the sessions that `matching(key, by_token, true)`
    /// does not select.
    fn drop_sessions(&mut self, key: u128, by_token: bool)
        requires
            old(self)@.wf(),
        ensures
            final(self)@.wf(),
            final(self)@.creators == old(self)@.creators,
            final(self)@.sessions == old(self)@.sessions.filter(matching(key, by_token, false)),
    {
        let kept = self.select_sessions(key, by_token, false);
        let ghost before = self@;
        self.sessions = kept;
        proof {
            let m = self@;
            assert(before.wf());
            assert(m.creators == before.creators);
            assert forall|k: int| 0 <= k < m.sessions.len() implies m.has_id(#[trigger] m.sessions[k].subject) by {
                assert(before.sessions.contains(m.sessions[k]));
                let j = choose|j: int| 0 <= j < before.sessions.len() && #[trigger] before.sessions[j] == m.sessions[k];
                assert(before.has_id(before.sessions[j].subject));
            }
        }
    }
}

impl Session {
    /// Records a session for `subject` under `token`, created at `created`.
    /// Fails with `NotFound` where no creator has the id `subject`, and with
    /// `InternalServerError` where `token` is already in use.
    pub fn issue(subject: u128, token: u128, created: i64, db: &mut Database) -> (r: Result<Session, ApiError>)
        requires
            old(db)@.wf(),
        ensures
            final(db)@.wf(),
            !old(db)@.has_id(subject) ==> r == Err::<Session, ApiError>(ApiError::NotFound),
            old(db)@.has_id(subject) && old(db)@.has_token(token)
                ==> r == Err::<Session, ApiError>(ApiError::InternalServerError),
            old(db)@.has_id(subject) && !old(db)@.has_token(token)
                ==> r == Ok::<Session, ApiError>(Session { token, subject, created }),
            r matches Ok(s) ==> final(db)@.creators == old(db)@.creators
                && final(db)@.sessions == old(db)@.sessions.push(s),
            r is Err ==> final(db)@ == old(db)@,
    {
        if db.find_id(subject).is_none() {
            return Err(ApiError::NotFound);
        }
        if db.find_token(token).is_some() {
            return Err(ApiError::InternalServerError);
        }
        let s = Session { token, subject, created };
        let ghost before = db@;
        db.sessions.push(s);
        proof {
            let m = db@;
            assert(m.creators == before.creators);
            assert(m.sessions == before.sessions.push(s));
            assert forall|k: int| 0 <= k < m.sessions.len() implies m.has_id(#[trigger] m.sessions[k].subject) by {
                if k < before.sessions.len() {
                    assert(m.sessions[k] == before.sessions[k]);
                    assert(before.has_id(before.sessions[k].subject));
                }
            }
            assert forall|i: int, j: int|
                0 <= i < m.sessions.len() && 0 <= j < m.sessions.len() && i != j
                    implies #[trigger] m.sessions[i].token != #[trigger] m.sessions[j].token by {
                if i < before.sessions.len() && j < before.sessions.len() {
                    assert(m.sessions[i] == before.sessions[i]);
                    assert(m.sessions[j] == before.sessions[j]);
                } else if i < before.sessions.len() {
                    assert(m.sessions[i] == before.sessions[i]);
                } else {
                    assert(m.sessions[j] == before.sessions[j]);
                }
            }
        }
        Ok(s)
    }

    /// Creates a session for `subject` with a fresh random token and the
    /// current time, through `issue`. Fails with `NotFound` where no creator
    /// has the id `subject`; otherwise only a failing random source or clock,
    /// or a token that happens to be in use already (`InternalServerError`),
    /// stops it.
    pub fn new(subject: u128, db: &mut Database) -> (r: Result<Session, ApiError>)
        requires
            old(db)@.wf(),
        ensures
            final(db)@.wf(),
            r matches Ok(s) ==> s.subject == subject && !old(db)@.has_token(s.token)
                && final(db)@.creators == old(db)@.creators
                && final(db)@.sessions == old(db)@.sessions.push(s),
            r matches Err(e) ==> final(db)@ == old(db)@
                && (e == ApiError::NotFound <==> !old(db)@.has_id(subject))
                && (e == ApiError::NotFound || e == ApiError::InternalServerError),
    {
        if db.find_id(subject).is_none() {
            return Err(ApiError::NotFound);
        }
        let token = match random_uuid() {
            Some(t) => t,
            None => return Err(ApiError::InternalServerError),
        };
        let created = match now_millis() {
            Some(t) => t,
            None => return Err(ApiError::InternalServerError),
        };
        Session::issue(subject, token, created, db)
    }

    /// The live session with `token`; `Unauthorized` where there is none.
    pub fn get(token: u128, db: &Database) -> (r: Result<Session, ApiError>)
        requires
            db@.wf(),
        ensures
            r == db@.session_by_token(token),
    {
        match db.find_token(token) {
            Some(i) => {
                proof {
                    lemma_session_by_token(db@, i as int);
                }
                Ok(db.sessions[i])
            },
            None => Err(ApiError::Unauthorized),
        }
    }

    /// All live sessions of `subject`, each once, in ascending order of
    /// creation time; empty where it has none.
    pub fn get_by_subject(subject: u128, db: &Database) -> (r: Vec<Session>)
        requires
            db@.wf(),
        ensures
            sorted_by_created(r@),
            r@.to_multiset() == db@.sessions_of(subject).to_multiset(),
    {
        let found = db.select_sessions(subject, false, true);
        let mut out: Vec<Session> = Vec::new();
        assert(out@ =~= found@.subrange(0, 0));
        let mut i: usize = 0;
        while i < found.len()
            invariant
                i <= found.len(),
                sorted_by_created(out@),
                out@.to_multiset() == found@.subrange(0, i as int).to_multiset(),
            decreases found.len() - i,
        {
            let x = found[i];
            let mut k: usize = out.len();
            while k > 0 && out[k - 1].created > x.created
                invariant
                    k <= out.len(),
                    forall|j: int| k <= j < out@.len() ==> #[trigger] out@[j].created > x.created,
                decreases k,
            {
                k = k - 1;
            }
            let ghost before = out@;
            out.insert(k, x);
            proof {
                assert forall|a: int, b: int| 0 <= a < b < out@.len() implies
                    #[trigger] out@[a].created <= #[trigger] out@[b].created by {
                    if b < k {
                        assert(out@[a] == before[a] && out@[b] == before[b]);
                    } else if b == k {
                        assert(out@[a] == before[a]);
                        assert(before[a].created <= before[k - 1].created || a == k - 1);
                    } else if a < k {
                        assert(out@[a] == before[a] && out@[b] == before[b - 1]);
                        assert(before[a].created <= before[k - 1].created || a == k - 1);
                    } else if a == k {
                        assert(out@[b] == before[b - 1]);
                    } else {
                        assert(out@[a] == before[a - 1] && out@[b] == before[b - 1]);
                    }
                }
                assert(out@.remove(k as int) =~= before);
                assert(out@[k as int] == x);
                let ms = out@.to_multiset();
                out@.to_multiset_ensures();
                assert(out@.remove(k as int).to_multiset() =~= ms.remove(x));
                assert(out@.contains(x));
                assert(ms.count(x) > 0);
                assert(ms.remove(x).insert(x) =~= ms);
                assert(out@.to_multiset() =~= before.to_multiset().insert(x));
                assert(found@.subrange(0, i as int + 1) =~= found@.subrange(0, i as int).push(x));
                found@.subrange(0, i as int).to_multiset_ensures();
            }
            i = i + 1;
        }
        assert(found@.subrange(0, found@.len() as int) =~= found@);
        out
    }

    /// The token text of an `Authorization` header value: what follows an
    /// optional `Bearer ` prefix.
    pub fn bearer_token(header: &str) -> (r: &str)
        ensures
            r@ == strip_bearer(header@),
    {
        let n = header.unicode_len();
        if n >= 7 && header.get_char(0) == 'B' && header.get_char(1) == 'e' && header.get_char(2) == 'a'
            && header.get_char(3) == 'r' && header.get_char(4) == 'e' && header.get_char(5) == 'r'
            && header.get_char(6) == ' ' {
            proof {
                assert(header@.subrange(0, 7) =~= bearer_prefix());
            }
            header.substring_char(7, n)
        } else {
            proof {
                if header@.len() >= 7 && header@.subrange(0, 7) == bearer_prefix() {
                    assert(header@[0] == header@.subrange(0, 7)[0]);
                    assert(header@[1] == header@.subrange(0, 7)[1]);
                    assert(header@[2] == header@.subrange(0, 7)[2]);
                    assert(header@[3] == header@.subrange(0, 7)[3]);
                    assert(header@[4] == header@.subrange(0, 7)[4]);
                    assert(header@[5] == header@.subrange(0, 7)[5]);
                    assert(header@[6] == header@.subrange(0, 7)[6]);
                }
            }
            header
        }
    }

    /// The session that a parsed token resolves to: `Unauthorized` where the
    /// text was no token or the token is not live.
    pub fn resolve(parsed: Option<u128>, db: &Database) -> (r: Result<Session, ApiError>)
        requires
            db@.wf(),
        ensures
            r == db@.resolve(parsed),
    {
        match parsed {
            None => Err(ApiError::Unauthorized),
            Some(token) => Session::get(token, db),
        }
    }

    /// Authenticates a request from its `Authorization` header value: a
    /// missing header, a text that is no token, and a token that is not live
    /// all fail with `Unauthorized`, never with another kind.
    pub fn authenticate(header: Option<&str>, db: &Database) -> (r: Result<Session, ApiError>)
        requires
            db@.wf(),
        ensures
            r == db@.authenticate(
                match header {
                    Some(h) => Some(h@),
                    None => None,
                },
            ),
    {
        match header {
            None => Err(ApiError::Unauthorized),
            Some(h) => {
                let text = Session::bearer_token(h);
                Session::resolve(parse_uuid(text), db)
            },
        }
    }

    /// Revokes this session. Revoking a session that is gone already is no error.
    pub fn remove(&self, db: &mut Database)
        requires
            old(db)@.wf(),
        ensures
            final(db)@.wf(),
            final(db)@.creators == old(db)@.creators,
            final(db)@.sessions == old(db)@.without_token(self.token),
    {
        db.drop_sessions(self.token, true)
    }

    /// Revokes the session with `token`, if there is one.
    pub fn remove_by_token(token: u128, db: &mut Database)
        requires
            old(db)@.wf(),
        ensures
            final(db)@.wf(),
            final(db)@.creators == old(db)@.creators,
            final(db)@.sessions == old(db)@.without_token(token),
    {
        db.drop_sessions(token, true)
    }

    /// Revokes every session of `subject`.
    pub fn remove_by_subject(subject: u128, db: &mut Database)
        requires
            old(db)@.wf(),
        ensures
            final(db)@.wf(),
            final(db)@.creators == old(db)@.creators,
            final(db)@.sessions == old(db)@.without_subject(subject),
    {
        db.drop_sessions(subject, false)
    }
}

} // verus!
