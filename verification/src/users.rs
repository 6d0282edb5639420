//! User administration and first-run setup: who may manage users, which roles
//! exist, and what creating, updating and deleting a user needs.
use vstd::prelude::*;

use vstd::string::StringSliceAdditionalSpecFns;

use crate::auth::{argon2_matches, hash_password, phc_parses};
use crate::error::{bad_request, conflict, forbidden, internal, AppError};
use crate::models::{CreateUser, CurrentUser, UpdateUser, User};
use crate::records::or_keep;
use crate::text::{str_eq, string_eq, trim, trimmed};

verus! {

/// Only admins manage users.
pub fn require_admin(current: &CurrentUser) -> (res: Result<(), AppError>)
    ensures
        res is Ok <==> current.role@ == "admin"@,
        res is Err ==> forbidden(res, "admin role required"@),
{
    if !str_eq(current.role.as_str(), "admin") {
        return Err(AppError::Forbidden(String::from_str("admin role required")));
    }
    Ok(())
}

/// A role is "admin" or "user".
pub open spec fn valid_role(role: Seq<char>) -> bool {
    role == "admin"@ || role == "user"@
}

/// Only the roles "admin" and "user" exist.
pub fn validate_role(role: &str) -> (res: Result<(), AppError>)
    ensures
        res is Ok <==> valid_role(role@),
        res is Err ==> bad_request(res, "role must be 'admin' or 'user'"@),
{
    if !str_eq(role, "admin") && !str_eq(role, "user") {
        return Err(AppError::BadRequest(String::from_str("role must be 'admin' or 'user'")));
    }
    Ok(())
}

/// The role a new user gets: the one asked for, "user" by default. The caller
/// must be an admin, and the role must exist.
pub fn create_user_role(current: &CurrentUser, role: Option<String>) -> (res: Result<String, AppError>)
    ensures
        current.role@ != "admin"@ ==> forbidden(res, "admin role required"@),
        current.role@ == "admin"@ ==> {
            let r = match role {
                Some(r) => r@,
                None => "user"@,
            };
            &&& (res is Ok <==> valid_role(r))
            &&& res matches Ok(v) ==> v@ == r
            &&& res is Err ==> bad_request(res, "role must be 'admin' or 'user'"@)
        },
{
    require_admin(current)?;
    let role = match role {
        Some(r) => r,
        None => String::from_str("user"),
    };
    validate_role(role.as_str())?;
    Ok(role)
}

/// A user name that some account already holds cannot be taken again.
pub fn check_username_free(taken: i64) -> (res: Result<(), AppError>)
    ensures
        res is Ok <==> taken <= 0,
        res is Err ==> conflict(res, "username already taken"@),
{
    if taken > 0 {
        return Err(AppError::Conflict(String::from_str("username already taken")));
    }
    Ok(())
}

/// A new account: no second factor yet; the password is stored as an argon2 hash.
pub fn new_user(id: String, payload: CreateUser, role: String, created_at: String) -> (res: Result<User, AppError>)
    ensures
        res matches Ok(u) ==> {
            &&& u.id == id
            &&& u.username == payload.username
            &&& phc_parses(u.password_hash@) && argon2_matches(payload.password@, u.password_hash@)
            &&& u.totp_secret is None
            &&& u.role == role
            &&& u.created_at == created_at
        },
        vstd::utf8::encode_utf8(payload.password@).len() <= 0xFFFF_FFFF ==> res is Ok,
        res is Err ==> internal(res),
{
    let password_hash = hash_password(payload.password.as_str())?;
    Ok(User { id, username: payload.username, password_hash, totp_secret: None, role, created_at })
}

/// A user after an update by an admin: the name and role given replace the
/// stored ones, and the role must exist; a new password is hashed, else the
/// stored hash stays.
pub fn update_user(current: &CurrentUser, existing: User, payload: UpdateUser) -> (res: Result<User, AppError>)
    ensures
        current.role@ != "admin"@ ==> forbidden(res, "admin role required"@),
        current.role@ == "admin"@ && !valid_role(or_keep(payload.role, existing.role)@) ==> bad_request(
            res,
            "role must be 'admin' or 'user'"@,
        ),
        current.role@ == "admin"@ && valid_role(or_keep(payload.role, existing.role)@) && (payload.password is None
            || vstd::utf8::encode_utf8(payload.password->0@).len() <= 0xFFFF_FFFF) ==> res is Ok,
        res matches Ok(u) ==> {
            &&& u.id == existing.id
            &&& u.username == or_keep(payload.username, existing.username)
            &&& u.role == or_keep(payload.role, existing.role)
            &&& u.totp_secret == existing.totp_secret
            &&& u.created_at == existing.created_at
            &&& (match payload.password {
                Some(p) => phc_parses(u.password_hash@) && argon2_matches(p@, u.password_hash@),
                None => u.password_hash == existing.password_hash,
            })
        },
{
    require_admin(current)?;
    let username = payload.username.unwrap_or(existing.username);
    let role = payload.role.unwrap_or(existing.role);
    validate_role(role.as_str())?;
    let password_hash = match payload.password {
        Some(password) => hash_password(password.as_str())?,
        None => existing.password_hash,
    };
    Ok(User {
        id: existing.id,
        username,
        password_hash,
        totp_secret: existing.totp_secret,
        role,
        created_at: existing.created_at,
    })
}

/// An admin may delete any account but their own.
pub fn check_delete_user(current: &CurrentUser, id: &String) -> (res: Result<(), AppError>)
    ensures
        current.role@ != "admin"@ ==> forbidden(res, "admin role required"@),
        current.role@ == "admin"@ && current.id@ == id@ ==> bad_request(res, "cannot delete your own account"@),
        current.role@ == "admin"@ && current.id@ != id@ ==> res is Ok,
{
    require_admin(current)?;
    if string_eq(&current.id, id) {
        return Err(AppError::BadRequest(String::from_str("cannot delete your own account")));
    }
    Ok(())
}

/// First-run setup is needed while no admin exists.
pub fn setup_required(admin_count: i64) -> (res: bool)
    ensures
        res == (admin_count == 0),
{
    admin_count == 0
}

/// The first admin's credentials must be usable: a name that is not blank and
/// a password of at least 8 bytes.
pub fn check_setup_request(username: &str, password: &str) -> (res: Result<(), AppError>)
    ensures
        trimmed(username@).len() == 0 ==> bad_request(res, "username is required"@),
        trimmed(username@).len() != 0 && password.len() < 8 ==> bad_request(
            res,
            "password must be at least 8 characters"@,
        ),
        trimmed(username@).len() != 0 && password.len() >= 8 ==> res is Ok,
{
    let t = trim(username);
    if t.as_str().is_empty() {
        return Err(AppError::BadRequest(String::from_str("username is required")));
    }
    if password.len() < 8 {
        return Err(AppError::BadRequest(String::from_str("password must be at least 8 characters")));
    }
    Ok(())
}

/// Setup runs once: only while no account exists at all.
pub fn check_setup_allowed(user_count: i64) -> (res: Result<(), AppError>)
    ensures
        res is Ok <==> user_count <= 0,
        res is Err ==> forbidden(res, "setup has already been completed"@),
{
    if user_count > 0 {
        return Err(AppError::Forbidden(String::from_str("setup has already been completed")));
    }
    Ok(())
}

/// The credentials of the first admin to create at start-up, from the
/// `ADMIN_USERNAME`/`ADMIN_PASSWORD` settings: only when no admin exists yet
/// and both are set.
pub fn bootstrap_credentials(admin_count: i64, username: Option<String>, password: Option<String>) -> (res: Option<(String, String)>)
    ensures
        admin_count > 0 ==> res is None,
        admin_count <= 0 && (username is None || password is None) ==> res is None,
        admin_count <= 0 && username is Some && password is Some ==> res == Some((username->0, password->0)),
{
    if admin_count > 0 {
        return None;
    }
    match (username, password) {
        (Some(u), Some(p)) => Some((u, p)),
        _ => None,
    }
}

/// First-run setup: a usable name and password (checked first), no account
/// yet, then the first account — an admin with no second factor.
pub fn setup_admin(username: &str, password: &str, user_count: i64, id: String, created_at: String) -> (res: Result<
    User,
    AppError,
>)
    ensures
        trimmed(username@).len() == 0 ==> bad_request(res, "username is required"@),
        trimmed(username@).len() != 0 && password.len() < 8 ==> bad_request(
            res,
            "password must be at least 8 characters"@,
        ),
        trimmed(username@).len() != 0 && password.len() >= 8 && user_count > 0 ==> forbidden(
            res,
            "setup has already been completed"@,
        ),
        res matches Ok(u) ==> {
            &&& u.id == id && u.username@ == username@ && u.created_at == created_at
            &&& u.role@ == "admin"@ && u.totp_secret is None
            &&& phc_parses(u.password_hash@) && argon2_matches(password@, u.password_hash@)
        },
        trimmed(username@).len() != 0 && password.len() >= 8 && user_count <= 0
            && vstd::utf8::encode_utf8(password@).len() <= 0xFFFF_FFFF ==> res is Ok,
        trimmed(username@).len() != 0 && password.len() >= 8 && user_count <= 0 && res is Err ==> internal(res),
{
    match check_setup_request(username, password) {
        Ok(()) => {},
        Err(e) => return Err(e),
    }
    match check_setup_allowed(user_count) {
        Ok(()) => {},
        Err(e) => return Err(e),
    }
    new_user(
        id,
        CreateUser { username: username.to_owned(), password: password.to_owned(), role: None },
        String::from_str("admin"),
        created_at,
    )
}

/// The first admin created at start-up from the `ADMIN_USERNAME` and
/// `ADMIN_PASSWORD` settings: only while no admin exists and both are set;
/// `None` when nothing is to be created.
pub fn bootstrap_admin_user(
    admin_count: i64,
    username: Option<String>,
    password: Option<String>,
    id: String,
    created_at: String,
) -> (res: Result<Option<User>, AppError>)
    ensures
        admin_count > 0 || username is None || password is None ==> res == Ok::<Option<User>, AppError>(None),
        admin_count <= 0 && username is Some && password is Some
            && vstd::utf8::encode_utf8(password->0@).len() <= 0xFFFF_FFFF ==> res matches Ok(Some(_)),
        res matches Ok(Some(u)) ==> {
            &&& admin_count <= 0 && username == Some(u.username) && password is Some
            &&& u.id == id && u.created_at == created_at
            &&& u.role@ == "admin"@ && u.totp_secret is None
            &&& phc_parses(u.password_hash@) && argon2_matches(password->0@, u.password_hash@)
        },
        res is Err ==> internal(res),
{
    match bootstrap_credentials(admin_count, username, password) {
        None => Ok(None),
        Some((u, p)) => match new_user(id, CreateUser { username: u, password: p, role: None }, String::from_str("admin"), created_at) {
            Ok(user) => Ok(Some(user)),
            Err(e) => Err(e),
        },
    }
}

} // verus!
