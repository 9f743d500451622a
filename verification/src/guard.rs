//! Access guards for protected route groups.
//!
//! Two composable checks run before a protected handler: `authenticate`
//! admits any logged-in session, and `auth_admin` additionally requires the
//! admin role. Both are read-only on the session record.

use vstd::prelude::*;

use crate::session::SessionState;

verus! {

/// The role value that marks an administrator.
pub const ADMIN_ROLE: i16 = 3;

/// Why a guard refused a request. Every variant is answered with an
/// `Unauthorized` response; the message distinguishes the cases.
#[derive(Clone, Copy, Debug, PartialEq, Eq, Structural)]
pub enum GuardError {
    /// The session carries no login at all.
    NotLoggedIn,
    /// The session is logged in but its role is missing: the caller should
    /// re-authenticate rather than assume it lacks permission.
    SessionExpired,
    /// The session is logged in but its role is not the admin role.
    InsufficientRole,
}

impl GuardError {
    /// The client-facing message of this refusal.
    pub fn message(&self) -> (msg: &'static str)
        ensures
            *self is NotLoggedIn ==> msg@ == "Unauthorized"@,
            *self is SessionExpired ==> msg@ == "Session expired relogin"@,
            *self is InsufficientRole ==> msg@ == "Insufficient role"@,
    {
        match self {
            GuardError::NotLoggedIn => "Unauthorized",
            GuardError::SessionExpired => "Session expired relogin",
            GuardError::InsufficientRole => "Insufficient role",
        }
    }
}

/// Whether the authenticated-only guard lets a session through.
pub open spec fn authenticate_allows(s: SessionState) -> bool {
    s.logged_in
}

/// Whether the admin guard lets a session through.
pub open spec fn admin_allows(s: SessionState) -> bool {
    s.logged_in && s.role == Some(ADMIN_ROLE)
}

/// The authenticated-only guard: admits exactly the logged-in sessions and
/// never touches the record.
pub fn authenticate(s: &SessionState) -> (r: Result<(), GuardError>)
    ensures
        r is Ok <==> authenticate_allows(*s),
        r is Err ==> r == Err::<(), GuardError>(GuardError::NotLoggedIn),
{
    if s.logged_in {
        Ok(())
    } else {
        Err(GuardError::NotLoggedIn)
    }
}

/// The admin guard: first the authenticated check, then the role check. It
/// admits exactly the logged-in sessions whose role equals `ADMIN_ROLE`.
pub fn auth_admin(s: &SessionState) -> (r: Result<(), GuardError>)
    ensures
        r is Ok <==> admin_allows(*s),
        !s.logged_in ==> r == Err::<(), GuardError>(GuardError::NotLoggedIn),
        s.logged_in && s.role is None ==> r == Err::<(), GuardError>(GuardError::SessionExpired),
        s.logged_in && s.role is Some && s.role != Some(ADMIN_ROLE) ==> r == Err::<(
        ), GuardError>(GuardError::InsufficientRole),
{
    if !s.logged_in {
        return Err(GuardError::NotLoggedIn);
    }
    match s.role {
        None => Err(GuardError::SessionExpired),
        Some(role) => {
            if role == ADMIN_ROLE {
                Ok(())
            } else {
                Err(GuardError::InsufficientRole)
            }
        },
    }
}

/// Law: the admin guard admits sessions whose role is the admin role and
/// rejects all others, anonymous and non-admin authenticated sessions
/// included; whatever it admits, the authenticated-only guard admits too.
pub proof fn lemma_admin_guard_scope(s: SessionState)
    ensures
        admin_allows(s) ==> authenticate_allows(s),
        admin_allows(s) <==> s.logged_in && s.role == Some(ADMIN_ROLE),
        s.is_anonymous() ==> !admin_allows(s),
        s.role != Some(ADMIN_ROLE) ==> !admin_allows(s),
{
}

/// Law: after a logout the record is anonymous, and no guard admits an
/// anonymous record — however often the old cookie is replayed, it resolves
/// to this cleared record and every authenticated-only request fails.
pub proof fn lemma_logout_revokes_access(s: SessionState)
    requires
        s.is_anonymous(),
    ensures
        !authenticate_allows(s),
        !admin_allows(s),
{
}

} // verus!
