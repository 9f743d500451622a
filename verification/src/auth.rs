//! The auth service: login, logout and registration over a directory of
//! user records.
//!
//! The directory models the `users` table as the service reads it: a
//! creation-ordered sequence of records with unique emails and unique ids.
//! The application loads records from its database into this type and writes
//! changes back; every decision — which user matches, whether the password
//! verifies, what enters the session — is made here.

use vstd::prelude::*;
use vstd::string::StringExecFns;

use crate::credentials::hash_password;
use crate::credentials::password_matches;
use crate::credentials::verify_password;
use crate::errors::ApiError;
use crate::guard::authenticate_allows;
use crate::session::SessionState;
use crate::text::str_eq;

verus! {

/// The credentials a login request carries.
#[derive(Debug, Default)]
pub struct Login {
    pub email: Option<String>,
    pub password: Option<String>,
}

/// Whether a session carries a login.
#[derive(Debug, Default)]
pub struct Logged(pub bool);

/// One user record, as stored: `password` holds the bcrypt hash, never the
/// plaintext. `role` feeds every authorization decision and `active` is kept
/// alongside it; both are only ever read back from this record, never from
/// client input.
#[derive(Debug)]
pub struct UserModel {
    pub id: u64,
    pub username: String,
    pub password: String,
    pub email: String,
    pub fullname: String,
    pub role: i16,
    pub avatar: String,
    pub notes: String,
    pub active: i16,
}

/// `p` is `u` with the password blanked: what a client may see.
pub open spec fn is_public_copy(p: UserModel, u: UserModel) -> bool {
    &&& p.id == u.id
    &&& p.username@ == u.username@
    &&& p.password@ == Seq::<char>::empty()
    &&& p.email@ == u.email@
    &&& p.fullname@ == u.fullname@
    &&& p.role == u.role
    &&& p.avatar@ == u.avatar@
    &&& p.notes@ == u.notes@
    &&& p.active == u.active
}

impl Clone for UserModel {
    fn clone(&self) -> (r: Self)
        ensures
            r == *self,
    {
        UserModel {
            id: self.id,
            username: self.username.clone(),
            password: self.password.clone(),
            email: self.email.clone(),
            fullname: self.fullname.clone(),
            role: self.role,
            avatar: self.avatar.clone(),
            notes: self.notes.clone(),
            active: self.active,
        }
    }
}

impl UserModel {
    /// A copy of this record with the password replaced by an empty
    /// placeholder, the only form handed to clients.
    pub fn sanitize(&self) -> (r: UserModel)
        ensures
            is_public_copy(r, *self),
    {
        UserModel {
            id: self.id,
            username: self.username.clone(),
            password: String::new(),
            email: self.email.clone(),
            fullname: self.fullname.clone(),
            role: self.role,
            avatar: self.avatar.clone(),
            notes: self.notes.clone(),
            active: self.active,
        }
    }
}

/// The session record a successful login of `u` writes: the login flag, the
/// user's role and the user's id — never the password or its hash.
pub open spec fn session_for(u: UserModel) -> SessionState {
    SessionState { logged_in: true, role: Some(u.role), user_id: Some(u.id) }
}

/// Some stored user has this email and a hash this password verifies
/// against.
pub open spec fn credentials_match(
    users: Seq<UserModel>,
    email: Seq<char>,
    password: Seq<char>,
) -> bool {
    exists|i: int|
        0 <= i < users.len() && (#[trigger] users[i]).email@ == email && password_matches(
            password,
            users[i].password@,
        )
}

/// The user records the service works over, in creation order.
pub struct UserDirectory {
    pub users: Vec<UserModel>,
    pub next_id: u64,
}

impl UserDirectory {
    /// Emails unique, ids unique, and every id below the next to be issued.
    pub open spec fn wf(&self) -> bool {
        &&& forall|i: int, j: int|
            0 <= i < j < self.users@.len() ==> self.users@[i].email@ != self.users@[j].email@
        &&& forall|i: int, j: int|
            0 <= i < j < self.users@.len() ==> self.users@[i].id != self.users@[j].id
        &&& forall|i: int| 0 <= i < self.users@.len() ==> (#[trigger] self.users@[i]).id < self.next_id
    }

    pub fn new() -> (d: Self)
        ensures
            d.wf(),
            d.users@.len() == 0,
    {
        UserDirectory { users: Vec::new(), next_id: 0 }
    }

    /// Exact-match lookup by email.
    pub fn find_by_email(&self, email: &str) -> (r: Option<usize>)
        ensures
            r matches Some(i) ==> i < self.users@.len() && self.users@[i as int].email@ == email@,
            r is None ==> forall|i: int|
                0 <= i < self.users@.len() ==> (#[trigger] self.users@[i]).email@ != email@,
    {
        let mut idx: usize = 0;
        while idx < self.users.len()
            invariant
                0 <= idx <= self.users@.len(),
                forall|i: int| 0 <= i < idx ==> (#[trigger] self.users@[i]).email@ != email@,
            decreases self.users@.len() - idx,
        {
            if str_eq(self.users[idx].email.as_str(), email) {
                return Some(idx);
            }
            idx += 1;
        }
        None
    }
}

/// Looks the email up, verifies the password against the stored hash, and on
/// success writes identity and role into the session and returns the stored
/// record with the password blanked. Both failure modes — unknown email and
/// wrong password — are the one indistinguishable `Unauthorized`, and neither
/// touches the session.
pub fn login(dir: &UserDirectory, session: &mut SessionState, email: &str, password: &str) -> (r:
    Result<UserModel, ApiError>)
    requires
        dir.wf(),
    ensures
        r is Ok <==> credentials_match(dir.users@, email@, password@),
        r matches Ok(u) ==> exists|i: int|
            0 <= i < dir.users@.len() && (#[trigger] dir.users@[i]).email@ == email@
                && password_matches(password@, dir.users@[i].password@) && is_public_copy(
                u,
                dir.users@[i],
            ) && *final(session) == session_for(dir.users@[i]),
        r is Ok ==> authenticate_allows(*final(session)),
        r matches Err(e) ==> e == ApiError::Unauthorized && *final(session) == *old(session),
{
    match dir.find_by_email(email) {
        None => Err(ApiError::Unauthorized),
        Some(i) => {
            let u = &dir.users[i];
            if verify_password(password, u.password.as_str()) {
                *session = SessionState {
                    logged_in: true,
                    role: Some(u.role),
                    user_id: Some(u.id),
                };
                Ok(u.sanitize())
            } else {
                proof {
                    assert forall|j: int|
                        0 <= j < dir.users@.len() && (#[trigger] dir.users@[j]).email@
                            == email@ implies j == i as int by {};
                }
                Err(ApiError::Unauthorized)
            }
        },
    }
}

/// Appends a user record carrying an already-computed password hash, with
/// the next id, the default role and the active flag set. Every decision is
/// made here, so success is owed exactly when the email is free and an id
/// can still be issued; a taken email is `Conflict`.
pub fn register_hashed(dir: &mut UserDirectory, email: &str, hashed: String) -> (r: Result<
    UserModel,
    ApiError,
>)
    requires
        old(dir).wf(),
    ensures
        final(dir).wf(),
        r is Ok <==> !(exists|i: int|
            0 <= i < old(dir).users@.len() && (#[trigger] old(dir).users@[i]).email@ == email@)
            && old(dir).next_id < u64::MAX,
        (exists|i: int|
            0 <= i < old(dir).users@.len() && (#[trigger] old(dir).users@[i]).email@ == email@)
            <==> r == Err::<UserModel, ApiError>(ApiError::Conflict),
        r matches Err(e) ==> e == ApiError::Conflict || e == ApiError::Internal,
        r is Err ==> *final(dir) == *old(dir),
        r matches Ok(u) ==> ({
            &&& final(dir).users@.len() == old(dir).users@.len() + 1
            &&& final(dir).users@ == old(dir).users@.push(final(dir).users@.last())
            &&& final(dir).users@.last().email@ == email@
            &&& final(dir).users@.last().password@ == hashed@
            &&& final(dir).users@.last().id == old(dir).next_id
            &&& final(dir).users@.last().role == 1
            &&& final(dir).users@.last().active == 1
            &&& final(dir).next_id == old(dir).next_id + 1
            &&& is_public_copy(u, final(dir).users@.last())
        }),
{
    match dir.find_by_email(email) {
        Some(_) => Err(ApiError::Conflict),
        None => {
            if dir.next_id == u64::MAX {
                return Err(ApiError::Internal);
            }
            let user = UserModel {
                id: dir.next_id,
                username: String::new(),
                password: hashed,
                email: email.to_owned(),
                fullname: String::new(),
                role: 1,
                avatar: String::new(),
                notes: String::new(),
                active: 1,
            };
            let result = user.sanitize();
            dir.users.push(user);
            dir.next_id = dir.next_id + 1;
            Ok(result)
        },
    }
}

/// Creates a user: rejects a taken email with `Conflict`, hashes the
/// password at a fixed work factor, and appends the record. The stored
/// record never holds the plaintext; the returned copy blanks even the
/// hash.
pub fn register(dir: &mut UserDirectory, email: &str, password: &str) -> (r: Result<
    UserModel,
    ApiError,
>)
    requires
        old(dir).wf(),
    ensures
        final(dir).wf(),
        (exists|i: int|
            0 <= i < old(dir).users@.len() && (#[trigger] old(dir).users@[i]).email@ == email@)
            <==> r == Err::<UserModel, ApiError>(ApiError::Conflict),
        r is Err ==> *final(dir) == *old(dir),
        r matches Err(e) ==> e == ApiError::Conflict || e == ApiError::Internal,
        r matches Ok(u) ==> ({
            &&& final(dir).users@.len() == old(dir).users@.len() + 1
            &&& final(dir).users@ == old(dir).users@.push(final(dir).users@.last())
            &&& final(dir).users@.last().email@ == email@
            &&& password_matches(password@, final(dir).users@.last().password@)
            &&& final(dir).users@.last().role == 1
            &&& final(dir).users@.last().active == 1
            &&& is_public_copy(u, final(dir).users@.last())
        }),
{
    match hash_password(password) {
        None => {
            match dir.find_by_email(email) {
                Some(_) => Err(ApiError::Conflict),
                None => Err(ApiError::Internal),
            }
        },
        Some(hashed) => register_hashed(dir, email, hashed),
    }
}

/// Law: the session a successful login writes is admitted by the
/// authenticated-only guard, so every subsequent request carrying it is
/// authorized until logout clears it.
pub proof fn lemma_login_grants_access(u: UserModel)
    ensures
        authenticate_allows(session_for(u)),
{
}

} // verus!
