//! Server-side session state.
//!
//! A session record has one fixed schema: a `logged_in` flag, the role of the
//! logged-in user, and the user's id. Login is the only writer, logout clears
//! everything, and the guards only read. The session store that keys records
//! by an opaque cookie id is an external collaborator; the application maps a
//! cookie to the record it holds here.

use vstd::prelude::*;

verus! {

/// One session record, as the guards and the auth service see it.
#[derive(Clone, Copy, Debug)]
pub struct SessionState {
    /// Whether a login has succeeded on this session.
    pub logged_in: bool,
    /// The role of the logged-in user; `None` on an anonymous session.
    pub role: Option<i16>,
    /// The id of the logged-in user; `None` on an anonymous session.
    pub user_id: Option<u64>,
}

impl SessionState {
    /// A session that carries no identity at all.
    pub open spec fn is_anonymous(self) -> bool {
        &&& !self.logged_in
        &&& self.role is None
        &&& self.user_id is None
    }

    /// The record of a fresh (or cleared) session.
    pub fn anonymous() -> (s: Self)
        ensures
            s.is_anonymous(),
    {
        SessionState { logged_in: false, role: None, user_id: None }
    }

    /// Unconditionally clears all state of the current session. Calling it on
    /// an already-anonymous session is not an error.
    pub fn logout(&mut self)
        ensures
            final(self).is_anonymous(),
    {
        self.logged_in = false;
        self.role = None;
        self.user_id = None;
    }
}

} // verus!
