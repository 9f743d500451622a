use portfolio_core::auth::{login, register, register_hashed, UserDirectory, UserModel};
use portfolio_core::errors::ApiError;
use portfolio_core::guard::{auth_admin, authenticate, GuardError, ADMIN_ROLE};
use portfolio_core::session::SessionState;

fn directory_with(email: &str, password: &str) -> UserDirectory {
    let mut dir = UserDirectory::new();
    let created = register(&mut dir, email, password);
    assert!(created.is_ok());
    dir
}

#[test]
fn login_with_matching_credentials_succeeds() {
    let dir = directory_with("a@x.com", "right");
    let mut session = SessionState::anonymous();
    let result = login(&dir, &mut session, "a@x.com", "right");
    let user = result.expect("matching credentials must log in");
    assert_eq!(user.email, "a@x.com");
    assert_eq!(user.password, "");
    assert!(session.logged_in);
    assert_eq!(session.role, Some(1));
    assert!(authenticate(&session).is_ok());
}

#[test]
fn login_with_wrong_password_is_unauthorized() {
    let dir = directory_with("a@x.com", "right");
    let mut session = SessionState::anonymous();
    let result = login(&dir, &mut session, "a@x.com", "wrong");
    let err = result.expect_err("wrong password must fail");
    assert_eq!(err, ApiError::Unauthorized);
    assert_eq!(err.status_code(), 401);
    assert_eq!(err.status_label(), "fail");
    assert_eq!(err.message(), "Unauthorized");
    assert!(!session.logged_in);
    assert_eq!(session.role, None);
    assert_eq!(session.user_id, None);
}

#[test]
fn login_with_unknown_email_is_the_same_unauthorized() {
    let dir = directory_with("a@x.com", "right");
    let mut session = SessionState::anonymous();
    let err = login(&dir, &mut session, "b@x.com", "right").expect_err("unknown email must fail");
    assert_eq!(err, ApiError::Unauthorized);
    assert_eq!(err.status_code(), 401);
    assert_eq!(err.message(), "Unauthorized");
    assert!(!session.logged_in);
}

#[test]
fn logout_revokes_access_even_when_cookie_is_replayed() {
    let dir = directory_with("a@x.com", "right");
    let mut session = SessionState::anonymous();
    login(&dir, &mut session, "a@x.com", "right").expect("login");
    assert!(authenticate(&session).is_ok());
    session.logout();
    // Any later request resolving the replayed cookie sees this cleared record.
    assert_eq!(authenticate(&session), Err(GuardError::NotLoggedIn));
    assert!(auth_admin(&session).is_err());
    // Logging out an already-anonymous session is not an error.
    session.logout();
    assert!(!session.logged_in);
}

#[test]
fn admin_guard_admits_only_the_admin_role() {
    let admin = SessionState { logged_in: true, role: Some(ADMIN_ROLE), user_id: Some(7) };
    assert!(auth_admin(&admin).is_ok());
    assert!(authenticate(&admin).is_ok());

    let editor = SessionState { logged_in: true, role: Some(1), user_id: Some(8) };
    assert_eq!(auth_admin(&editor), Err(GuardError::InsufficientRole));
    assert_eq!(auth_admin(&editor).unwrap_err().message(), "Insufficient role");

    let anonymous = SessionState::anonymous();
    assert_eq!(auth_admin(&anonymous), Err(GuardError::NotLoggedIn));
    assert_eq!(auth_admin(&anonymous).unwrap_err().message(), "Unauthorized");

    let stale = SessionState { logged_in: true, role: None, user_id: None };
    assert_eq!(auth_admin(&stale), Err(GuardError::SessionExpired));
    assert_eq!(auth_admin(&stale).unwrap_err().message(), "Session expired relogin");
}

#[test]
fn register_rejects_a_taken_email_with_conflict() {
    let mut dir = directory_with("a@x.com", "first");
    let err = register(&mut dir, "a@x.com", "second").expect_err("duplicate email");
    assert_eq!(err, ApiError::Conflict);
    assert_eq!(err.status_code(), 409);
    // The first registration's credentials still work.
    let mut session = SessionState::anonymous();
    assert!(login(&dir, &mut session, "a@x.com", "first").is_ok());
}

#[test]
fn register_hashes_the_password_and_returns_a_blank_placeholder() {
    let mut dir = UserDirectory::new();
    let user = register(&mut dir, "a@x.com", "secret").expect("register");
    assert_eq!(user.password, "");
    assert_eq!(user.role, 1);
    assert_eq!(user.active, 1);
    // The stored record holds a bcrypt hash, never the plaintext.
    assert_ne!(dir.users[0].password, "secret");
    assert!(dir.users[0].password.starts_with("$2"));
}

#[test]
fn register_hashed_stores_the_given_hash_verbatim() {
    let mut dir = UserDirectory::new();
    let user = register_hashed(&mut dir, "a@x.com", "$2b$12$nothashedhere".to_string())
        .expect("free email must succeed");
    assert_eq!(user.id, 0);
    assert_eq!(dir.users[0].password, "$2b$12$nothashedhere");
    assert_eq!(dir.next_id, 1);
    let err = register_hashed(&mut dir, "a@x.com", "other".to_string()).unwrap_err();
    assert_eq!(err, ApiError::Conflict);
    assert_eq!(dir.users.len(), 1);
}

#[test]
fn register_with_exhausted_id_space_is_internal() {
    let mut dir = UserDirectory { users: Vec::new(), next_id: u64::MAX };
    let err = register(&mut dir, "a@x.com", "pw").unwrap_err();
    assert_eq!(err, ApiError::Internal);
    assert_eq!(dir.users.len(), 0);
}

#[test]
fn sanitize_blanks_only_the_password() {
    let user = UserModel {
        id: 4,
        username: "u".to_string(),
        password: "$2b$12$hash".to_string(),
        email: "e@x.com".to_string(),
        fullname: "Full Name".to_string(),
        role: 3,
        avatar: "a.webp".to_string(),
        notes: "n".to_string(),
        active: 1,
    };
    let public = user.sanitize();
    assert_eq!(public.password, "");
    assert_eq!(public.id, 4);
    assert_eq!(public.username, "u");
    assert_eq!(public.email, "e@x.com");
    assert_eq!(public.fullname, "Full Name");
    assert_eq!(public.role, 3);
    assert_eq!(public.avatar, "a.webp");
    assert_eq!(public.notes, "n");
    assert_eq!(public.active, 1);
}

#[test]
fn bcrypt_verification_goes_through_the_real_hash() {
    // A hash produced outside the library verifies through login: the
    // credential check depends on the stored hash, not on the input alone.
    let hash = bcrypt::hash("right", bcrypt::DEFAULT_COST).unwrap();
    let dir = UserDirectory {
        users: vec![UserModel {
            id: 0,
            username: String::new(),
            password: hash,
            email: "a@x.com".to_string(),
            fullname: String::new(),
            role: 3,
            avatar: String::new(),
            notes: String::new(),
            active: 1,
        }],
        next_id: 1,
    };
    let mut session = SessionState::anonymous();
    assert!(login(&dir, &mut session, "a@x.com", "right").is_ok());
    assert_eq!(session.role, Some(3));
    assert!(auth_admin(&session).is_ok());
    let mut session2 = SessionState::anonymous();
    assert!(login(&dir, &mut session2, "a@x.com", "Right").is_err());
}
