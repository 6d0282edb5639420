use cardflow::auth::verify_password;
use cardflow::error::AppError;
use cardflow::models::{CreateUser, CurrentUser, UpdateUser, User};
use cardflow::users::{
    bootstrap_admin_user, bootstrap_credentials, check_delete_user, setup_admin, check_setup_allowed, check_setup_request, check_username_free,
    create_user_role, new_user, require_admin, setup_required, update_user, validate_role,
};

fn s(x: &str) -> String {
    x.to_string()
}

fn caller(role: &str) -> CurrentUser {
    CurrentUser { id: s("me"), username: s("root"), role: s(role) }
}

fn forbidden() -> AppError {
    AppError::Forbidden(s("admin role required"))
}

#[test]
fn require_admin_checks_role() {
    assert_eq!(require_admin(&caller("admin")), Ok(()));
    assert_eq!(require_admin(&caller("user")), Err(forbidden()));
}

#[test]
fn validate_role_accepts_two_roles() {
    assert_eq!(validate_role("admin"), Ok(()));
    assert_eq!(validate_role("user"), Ok(()));
    assert_eq!(validate_role("root"), Err(AppError::BadRequest(s("role must be 'admin' or 'user'"))));
}

#[test]
fn create_user_role_defaults_to_user() {
    assert_eq!(create_user_role(&caller("admin"), None), Ok(s("user")));
    assert_eq!(create_user_role(&caller("admin"), Some(s("admin"))), Ok(s("admin")));
    assert_eq!(
        create_user_role(&caller("admin"), Some(s("god"))),
        Err(AppError::BadRequest(s("role must be 'admin' or 'user'")))
    );
    assert_eq!(create_user_role(&caller("user"), None), Err(forbidden()));
}

#[test]
fn username_taken_is_conflict() {
    assert_eq!(check_username_free(0), Ok(()));
    assert_eq!(check_username_free(1), Err(AppError::Conflict(s("username already taken"))));
}

#[test]
fn new_user_hashes_password() {
    let u = new_user(s("u1"), CreateUser { username: s("bob"), password: s("pw"), role: None }, s("user"), s("t")).unwrap();
    assert_eq!(u.username, "bob");
    assert_eq!(u.totp_secret, None);
    assert_eq!(verify_password("pw", &u.password_hash), Ok(true));
}

#[test]
fn update_user_merges_fields() {
    let existing = User {
        id: s("u1"),
        username: s("bob"),
        password_hash: s("$old"),
        totp_secret: Some(s("SECRET")),
        role: s("user"),
        created_at: s("t0"),
    };
    let kept = update_user(&caller("admin"), existing.clone(), UpdateUser { username: None, password: None, role: None });
    assert_eq!(kept, Ok(existing.clone()));
    let changed = update_user(
        &caller("admin"),
        existing.clone(),
        UpdateUser { username: Some(s("robert")), password: Some(s("new")), role: Some(s("admin")) },
    )
    .unwrap();
    assert_eq!(changed.username, "robert");
    assert_eq!(changed.role, "admin");
    assert_eq!(changed.totp_secret, Some(s("SECRET")));
    assert_eq!(verify_password("new", &changed.password_hash), Ok(true));
    assert_eq!(
        update_user(&caller("admin"), existing.clone(), UpdateUser { username: None, password: None, role: Some(s("x")) }),
        Err(AppError::BadRequest(s("role must be 'admin' or 'user'")))
    );
    assert_eq!(
        update_user(&caller("user"), existing, UpdateUser { username: None, password: None, role: None }),
        Err(forbidden())
    );
}

#[test]
fn delete_user_rules() {
    assert_eq!(check_delete_user(&caller("admin"), &s("other")), Ok(()));
    assert_eq!(
        check_delete_user(&caller("admin"), &s("me")),
        Err(AppError::BadRequest(s("cannot delete your own account")))
    );
    assert_eq!(check_delete_user(&caller("user"), &s("other")), Err(forbidden()));
}

#[test]
fn setup_rules() {
    assert!(setup_required(0));
    assert!(!setup_required(2));
    assert_eq!(check_setup_request("admin", "longenough"), Ok(()));
    assert_eq!(check_setup_request("  ", "longenough"), Err(AppError::BadRequest(s("username is required"))));
    assert_eq!(
        check_setup_request("admin", "short"),
        Err(AppError::BadRequest(s("password must be at least 8 characters")))
    );
    assert_eq!(check_setup_allowed(0), Ok(()));
    assert_eq!(check_setup_allowed(1), Err(AppError::Forbidden(s("setup has already been completed"))));
}

#[test]
fn bootstrap_only_without_admin() {
    assert_eq!(bootstrap_credentials(0, Some(s("a")), Some(s("p"))), Some((s("a"), s("p"))));
    assert_eq!(bootstrap_credentials(1, Some(s("a")), Some(s("p"))), None);
    assert_eq!(bootstrap_credentials(0, Some(s("a")), None), None);
}

#[test]
fn setup_admin_creates_first_admin() {
    let u = setup_admin("root", "longenough", 0, s("u0"), s("t0")).unwrap();
    assert_eq!(u.role, "admin");
    assert_eq!(u.username, "root");
    assert_eq!(u.totp_secret, None);
    assert_eq!(verify_password("longenough", &u.password_hash), Ok(true));
    assert_eq!(setup_admin("root", "longenough", 1, s("u0"), s("t0")), Err(AppError::Forbidden(s("setup has already been completed"))));
    assert_eq!(setup_admin(" ", "longenough", 1, s("u0"), s("t0")), Err(AppError::BadRequest(s("username is required"))));
    assert_eq!(
        setup_admin("root", "short", 1, s("u0"), s("t0")),
        Err(AppError::BadRequest(s("password must be at least 8 characters")))
    );
}

#[test]
fn bootstrap_admin_user_only_when_needed() {
    let u = bootstrap_admin_user(0, Some(s("boss")), Some(s("pw")), s("u1"), s("t")).unwrap().unwrap();
    assert_eq!(u.role, "admin");
    assert_eq!(u.username, "boss");
    assert_eq!(bootstrap_admin_user(2, Some(s("boss")), Some(s("pw")), s("u1"), s("t")), Ok(None));
    assert_eq!(bootstrap_admin_user(0, None, Some(s("pw")), s("u1"), s("t")), Ok(None));
}
