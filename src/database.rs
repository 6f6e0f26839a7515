use vstd::prelude::*;
use crate::creator::{Creator, CreatorModel};
use crate::error::ApiError;
use crate::session::Session;

verus! {

/// The persistent store: the table of creators and the table of sessions.
/// Every operation takes it explicitly; exclusive access (`&mut`) is what
/// serialises concurrent writers, so uniqueness is decided here and nowhere else.
pub struct Database {
    pub(crate) creators: Vec<Creator>,
    pub(crate) sessions: Vec<Session>,
}

/// The contents of a [`Database`]: its two tables, rows in insertion order.
pub ghost struct DatabaseModel {
    pub creators: Seq<CreatorModel>,
    pub sessions: Seq<Session>,
}

impl View for Database {
    type V = DatabaseModel;

    open(crate) spec fn view(&self) -> DatabaseModel {
        DatabaseModel {
            creators: self.creators@.map_values(|c: Creator| c@),
            sessions: self.sessions@,
        }
    }
}

impl DatabaseModel {
    pub open spec fn has_id(self, id: u128) -> bool {
        exists|i: int| 0 <= i < self.creators.len() && #[trigger] self.creators[i].id == id
    }

    pub open spec fn has_name(self, name: Seq<char>) -> bool {
        exists|i: int| 0 <= i < self.creators.len() && #[trigger] self.creators[i].name == name
    }

    pub open spec fn has_email(self, email: Seq<char>) -> bool {
        exists|i: int| 0 <= i < self.creators.len() && #[trigger] self.creators[i].email == email
    }

    /// Another creator than the one with `id` already uses `email`.
    pub open spec fn email_taken_by_other(self, email: Seq<char>, id: u128) -> bool {
        exists|i: int|
            0 <= i < self.creators.len() && #[trigger] self.creators[i].email == email
                && self.creators[i].id != id
    }

    pub open spec fn has_token(self, token: u128) -> bool {
        exists|i: int| 0 <= i < self.sessions.len() && #[trigger] self.sessions[i].token == token
    }

    pub open spec fn has_sessions_of(self, subject: u128) -> bool {
        exists|i: int| 0 <= i < self.sessions.len() && #[trigger] self.sessions[i].subject == subject
    }

    /// The store's constraints: ids, names, emails and tokens are each
    /// unique, and every session belongs to an existing creator.
    pub open spec fn wf(self) -> bool {
        &&& forall|i: int, j: int|
            0 <= i < self.creators.len() && 0 <= j < self.creators.len() && i != j ==> {
                &&& #[trigger] self.creators[i].id != #[trigger] self.creators[j].id
                &&& self.creators[i].name != self.creators[j].name
                &&& self.creators[i].email != self.creators[j].email
            }
        &&& forall|i: int, j: int|
            0 <= i < self.sessions.len() && 0 <= j < self.sessions.len() && i != j
                ==> #[trigger] self.sessions[i].token != #[trigger] self.sessions[j].token
        &&& forall|k: int| 0 <= k < self.sessions.len() ==> self.has_id(#[trigger] self.sessions[k].subject)
    }

    /// The creator whose id is `id`, if there is one.
    pub open spec fn creator_by_id(self, id: u128) -> Option<CreatorModel> {
        if self.has_id(id) {
            Some(self.creators[choose|i: int| 0 <= i < self.creators.len() && #[trigger] self.creators[i].id == id])
        } else {
            None
        }
    }

    /// The creator whose name is `name`, if there is one.
    pub open spec fn creator_by_name(self, name: Seq<char>) -> Option<CreatorModel> {
        if self.has_name(name) {
            Some(self.creators[choose|i: int| 0 <= i < self.creators.len() && #[trigger] self.creators[i].name == name])
        } else {
            None
        }
    }

    /// The creator whose email is `email`, if there is one.
    pub open spec fn creator_by_email(self, email: Seq<char>) -> Option<CreatorModel> {
        if self.has_email(email) {
            Some(self.creators[choose|i: int| 0 <= i < self.creators.len() && #[trigger] self.creators[i].email == email])
        } else {
            None
        }
    }

    /// The live session with `token`; a token that is not live is an
    /// authentication failure, not a missing resource.
    pub open spec fn session_by_token(self, token: u128) -> Result<Session, ApiError> {
        if self.has_token(token) {
            Ok(self.sessions[choose|i: int| 0 <= i < self.sessions.len() && #[trigger] self.sessions[i].token == token])
        } else {
            Err(ApiError::Unauthorized)
        }
    }
}

/// The creator at index `i` is what `creator_by_id` gives for its id.
pub(crate) proof fn lemma_creator_by_id(m: DatabaseModel, i: int)
    requires
        m.wf(),
        0 <= i < m.creators.len(),
    ensures
        m.creator_by_id(m.creators[i].id) == Some(m.creators[i]),
{
    let id = m.creators[i].id;
    assert(m.has_id(id));
    let j = choose|j: int| 0 <= j < m.creators.len() && #[trigger] m.creators[j].id == id;
    assert(m.creators[j].id == m.creators[i].id);
}

/// The creator at index `i` is what `creator_by_name` gives for its name.
pub(crate) proof fn lemma_creator_by_name(m: DatabaseModel, i: int)
    requires
        m.wf(),
        0 <= i < m.creators.len(),
    ensures
        m.creator_by_name(m.creators[i].name) == Some(m.creators[i]),
{
    let name = m.creators[i].name;
    assert(m.has_name(name));
    let j = choose|j: int| 0 <= j < m.creators.len() && #[trigger] m.creators[j].name == name;
    if j != i {
        assert(m.creators[i].id != m.creators[j].id);
    }
}

/// The creator at index `i` is what `creator_by_email` gives for its email.
pub(crate) proof fn lemma_creator_by_email(m: DatabaseModel, i: int)
    requires
        m.wf(),
        0 <= i < m.creators.len(),
    ensures
        m.creator_by_email(m.creators[i].email) == Some(m.creators[i]),
{
    let email = m.creators[i].email;
    assert(m.has_email(email));
    let j = choose|j: int| 0 <= j < m.creators.len() && #[trigger] m.creators[j].email == email;
    if j != i {
        assert(m.creators[i].id != m.creators[j].id);
    }
}

/// The session at index `i` is what `session_by_token` gives for its token.
pub(crate) proof fn lemma_session_by_token(m: DatabaseModel, i: int)
    requires
        m.wf(),
        0 <= i < m.sessions.len(),
    ensures
        m.session_by_token(m.sessions[i].token) == Ok::<Session, ApiError>(m.sessions[i]),
{
    let token = m.sessions[i].token;
    assert(m.has_token(token));
    let j = choose|j: int| 0 <= j < m.sessions.len() && #[trigger] m.sessions[j].token == token;
    assert(m.sessions[j].token == m.sessions[i].token);
}

impl Database {
    /// An empty store.
    pub fn new() -> (r: Database)
        ensures
            r@.creators.len() == 0,
            r@.sessions.len() == 0,
            r@.wf(),
    {
        Database { creators: Vec::new(), sessions: Vec::new() }
    }

    pub(crate) fn find_id(&self, id: u128) -> (r: Option<usize>)
        ensures
            r matches Some(i) ==> i < self@.creators.len() && self@.creators[i as int].id == id,
            r is None ==> !self@.has_id(id),
    {
        let mut i: usize = 0;
        while i < self.creators.len()
            invariant
                i <= self.creators.len(),
                forall|k: int| 0 <= k < i ==> self@.creators[k].id != id,
            decreases self.creators.len() - i,
        {
            if self.creators[i].id == id {
                return Some(i);
            }
            i = i + 1;
        }
        None
    }

    pub(crate) fn find_name(&self, name: &String) -> (r: Option<usize>)
        ensures
            r matches Some(i) ==> i < self@.creators.len() && self@.creators[i as int].name == name@,
            r is None ==> !self@.has_name(name@),
    {
        let mut i: usize = 0;
        while i < self.creators.len()
            invariant
                i <= self.creators.len(),
                forall|k: int| 0 <= k < i ==> self@.creators[k].name != name@,
            decreases self.creators.len() - i,
        {
            if self.creators[i].name == *name {
                return Some(i);
            }
            i = i + 1;
        }
        None
    }

    /// The first creator other than the one with `skip` whose email is `email`.
    pub(crate) fn find_email(&self, email: &String, skip: Option<u128>) -> (r: Option<usize>)
        ensures
            r matches Some(i) ==> i < self@.creators.len() && self@.creators[i as int].email == email@
                && match skip {
                Some(id) => self@.creators[i as int].id != id,
                None => true,
            },
            r is None ==> match skip {
                Some(id) => !self@.email_taken_by_other(email@, id),
                None => !self@.has_email(email@),
            },
    {
        let mut i: usize = 0;
        while i < self.creators.len()
            invariant
                i <= self.creators.len(),
                forall|k: int|
                    0 <= k < i ==> self@.creators[k].email != email@ || match skip {
                        Some(id) => self@.creators[k].id == id,
                        None => false,
                    },
            decreases self.creators.len() - i,
        {
            let other = match skip {
                Some(id) => self.creators[i].id != id,
                None => true,
            };
            if other && self.creators[i].email == *email {
                return Some(i);
            }
            i = i + 1;
        }
        None
    }

    pub(crate) fn find_subject(&self, subject: u128) -> (r: Option<usize>)
        ensures
            r matches Some(i) ==> i < self@.sessions.len() && self@.sessions[i as int].subject == subject,
            r is None ==> !self@.has_sessions_of(subject),
    {
        let mut i: usize = 0;
        while i < self.sessions.len()
            invariant
                i <= self.sessions.len(),
                forall|k: int| 0 <= k < i ==> self@.sessions[k].subject != subject,
            decreases self.sessions.len() - i,
        {
            if self.sessions[i].subject == subject {
                return Some(i);
            }
            i = i + 1;
        }
        None
    }

    pub(crate) fn find_token(&self, token: u128) -> (r: Option<usize>)
        ensures
            r matches Some(i) ==> i < self@.sessions.len() && self@.sessions[i as int].token == token,
            r is None ==> !self@.has_token(token),
    {
        let mut i: usize = 0;
        while i < self.sessions.len()
            invariant
                i <= self.sessions.len(),
                forall|k: int| 0 <= k < i ==> self@.sessions[k].token != token,
            decreases self.sessions.len() - i,
        {
            if self.sessions[i].token == token {
                return Some(i);
            }
            i = i + 1;
        }
        None
    }
}

} // verus!
