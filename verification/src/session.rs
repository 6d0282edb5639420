//! Signing in and staying signed in: login, refresh, the bearer header, API
//! tokens, and enrolling a second factor.
use vstd::prelude::*;

use crate::auth::{
    access_token_at, argon2_matches, base32_bytes, check_totp, code_of, generate_refresh_token, hash_password,
    hash_token, jwt_claims, jwt_hs256, phc_parses, verify_password, ACCESS_TOKEN_TTL_SECONDS, REFRESH_TOKEN_TTL_DAYS,
};
use crate::clock::{rfc3339_after, rfc3339_text, Instant};
use crate::error::{bad_request, internal, unauthorized, AppError};
use crate::models::{ApiToken, CreateApiTokenResponse, CurrentUser, User};
use crate::text::{all_lower_hex, seq_lt, spec_strip_prefix, str_less, strip_prefix, trim, trimmed};

verus! {

/// A login request.
#[derive(Debug, Clone, PartialEq, Eq)]
pub struct LoginRequest {
    pub username: String,
    pub password: String,
    pub totp_code: Option<String>,
}

/// Checks a login: the user must exist and the password match; a user with a
/// second factor must also give the current TOTP code.
pub fn login(user: Option<User>, payload: &LoginRequest) -> (res: Result<User, AppError>)
    ensures
        user is None ==> unauthorized(res, "invalid username or password"@),
        user matches Some(u) && !phc_parses(u.password_hash@) ==> internal(res),
        user matches Some(u) && phc_parses(u.password_hash@) && !argon2_matches(payload.password@, u.password_hash@)
            ==> unauthorized(res, "invalid username or password"@),
        user matches Some(u) && phc_parses(u.password_hash@) && argon2_matches(payload.password@, u.password_hash@)
            && u.totp_secret is Some && payload.totp_code is None ==> unauthorized(res, "totp code required"@),
        user is Some && phc_parses(user->0.password_hash@) && argon2_matches(payload.password@, user->0.password_hash@)
            && user->0.totp_secret is None ==> res == Ok::<User, AppError>(user->0),
        user matches Some(u) && phc_parses(u.password_hash@) && argon2_matches(payload.password@, u.password_hash@)
            && u.totp_secret is Some && payload.totp_code is Some && base32_bytes(u.totp_secret->0@) is None ==> res is Err
            && res->Err_0 is BadRequest,
        res matches Ok(v) ==> user == Some(v) && argon2_matches(payload.password@, v.password_hash@),
        res is Ok && res->Ok_0.totp_secret is Some ==> payload.totp_code is Some && base32_bytes(
            res->Ok_0.totp_secret->0@,
        ) is Some && code_of(base32_bytes(res->Ok_0.totp_secret->0@)->0, payload.totp_code->0@),
{
    let user = match user {
        Some(u) => u,
        None => return Err(AppError::Unauthorized(String::from_str("invalid username or password"))),
    };
    if !verify_password(payload.password.as_str(), user.password_hash.as_str())? {
        return Err(AppError::Unauthorized(String::from_str("invalid username or password")));
    }
    if let Some(secret) = &user.totp_secret {
        let code = match &payload.totp_code {
            Some(c) => c,
            None => return Err(AppError::Unauthorized(String::from_str("totp code required"))),
        };
        let matches = check_totp(secret.as_str(), user.username.as_str(), code.as_str())?;
        login_second_factor(matches)?;
    }
    Ok(user)
}

/// The verdict on a login's TOTP code, once it has been checked: a code that
/// does not match refuses the login.
pub fn login_second_factor(matches: bool) -> (res: Result<(), AppError>)
    ensures
        matches ==> res is Ok,
        !matches ==> unauthorized(res, "invalid totp code"@),
{
    if matches {
        Ok(())
    } else {
        Err(AppError::Unauthorized(String::from_str("invalid totp code")))
    }
}

/// The refresh token from its cookie.
pub fn refresh_cookie(value: Option<String>) -> (res: Result<String, AppError>)
    ensures
        value matches Some(v) ==> res == Ok::<String, AppError>(v),
        value is None ==> unauthorized(res, "missing refresh token"@),
{
    match value {
        Some(v) => Ok(v),
        None => Err(AppError::Unauthorized(String::from_str("missing refresh token"))),
    }
}

/// A stored refresh token: its user, when it expires and when (if ever) it
/// was revoked, as RFC 3339 text.
#[derive(Debug, Clone, PartialEq, Eq)]
pub struct RefreshRow {
    pub user_id: String,
    pub expires_at: String,
    pub revoked_at: Option<String>,
}

/// Why a stored refresh token is refused at time `now` (RFC 3339 text), as
/// the message of its `Unauthorized`; `None` when it is accepted.
pub open spec fn refresh_refusal(row: Option<RefreshRow>, now: Seq<char>) -> Option<Seq<char>> {
    match row {
        None => Some("invalid refresh token"@),
        Some(r) => if r.revoked_at is Some || seq_lt(r.expires_at@, now) {
            Some("refresh token expired or revoked"@)
        } else {
            None
        },
    }
}

/// Checks the stored refresh token at time `now` and gives its user: it must
/// exist, not be revoked, and not have expired (`expires_at` sorts before `now`).
pub fn check_refresh(row: Option<RefreshRow>, now: &str) -> (res: Result<String, AppError>)
    ensures
        row is None ==> unauthorized(res, "invalid refresh token"@),
        row matches Some(r) && (r.revoked_at is Some || seq_lt(r.expires_at@, now@)) ==> unauthorized(
            res,
            "refresh token expired or revoked"@,
        ),
        row is Some && row->0.revoked_at is None && !seq_lt(row->0.expires_at@, now@) ==> res == Ok::<
            String,
            AppError,
        >(row->0.user_id),
        match refresh_refusal(row, now@) {
            Some(m) => unauthorized(res, m),
            None => res == Ok::<String, AppError>(row->0.user_id),
        },
{
    let row = match row {
        Some(r) => r,
        None => return Err(AppError::Unauthorized(String::from_str("invalid refresh token"))),
    };
    if row.revoked_at.is_some() || str_less(row.expires_at.as_str(), now) {
        return Err(AppError::Unauthorized(String::from_str("refresh token expired or revoked")));
    }
    Ok(row.user_id)
}

/// A stored refresh token once it is used or logged out: revoked at `now`,
/// nothing else changes.
pub open spec fn revoked_row(row: RefreshRow, now: String) -> RefreshRow {
    RefreshRow { revoked_at: Some(now), ..row }
}

/// Revokes a stored refresh token at `now` (RFC 3339 text).
pub fn revoke_refresh(row: RefreshRow, now: String) -> (res: RefreshRow)
    ensures
        res == revoked_row(row, now),
{
    RefreshRow { revoked_at: Some(now), ..row }
}

/// Law: a session refresh token is good for one refresh. Once the refresh
/// revoked it, presenting it again is refused at any later time.
pub proof fn lemma_refresh_token_single_use(row: RefreshRow, revoked_at: String, later: Seq<char>)
    ensures
        refresh_refusal(Some(revoked_row(row, revoked_at)), later) == Some("refresh token expired or revoked"@),
{
}

/// The body of a session response.
#[derive(Debug, Clone, PartialEq, Eq)]
pub struct SessionResponse {
    pub access_token: String,
    pub token_type: String,
    pub expires_in: i64,
}

/// A new session: the response, the raw refresh token for the cookie, and
/// what the store keeps of it (its hash and when it expires).
#[derive(Debug, Clone, PartialEq, Eq)]
pub struct SessionGrant {
    pub response: SessionResponse,
    pub refresh_token_id: String,
    pub refresh_token: String,
    pub refresh_token_hash: String,
    pub refresh_expires_at: String,
    pub created_at: String,
}

/// Issues a session for `user` at `now`: an access token issued at `now`,
/// and a fresh refresh token valid for `REFRESH_TOKEN_TTL_DAYS`, stored only
/// as its hash. It fails only where a timestamp falls outside chrono's range.
pub fn issue_session(user: &User, secret: &[u8], now: &Instant) -> (res: Result<SessionGrant, AppError>)
    requires
        -10_000_000_000_000 < now.secs < 10_000_000_000_000,
    ensures
        res is Ok <==> (rfc3339_text(now.secs + REFRESH_TOKEN_TTL_DAYS * 86400, now.nanos as int) is Some
            && rfc3339_text(now.secs as int, now.nanos as int) is Some),
        res matches Ok(g) ==> {
            &&& g.response.access_token@ == jwt_hs256(
                user.id@,
                user.role@,
                now.secs as int,
                now.secs + ACCESS_TOKEN_TTL_SECONDS,
                secret@,
            )
            &&& now.secs + ACCESS_TOKEN_TTL_SECONDS >= 0 ==> jwt_claims(g.response.access_token@, secret@) == Some(
                (Some(user.id@), Some(user.role@), Some(now.secs as int), Some(now.secs + ACCESS_TOKEN_TTL_SECONDS)),
            )
            &&& g.response.token_type@ == "Bearer"@
            &&& g.response.expires_in == ACCESS_TOKEN_TTL_SECONDS
            &&& g.refresh_token@.len() == 64 && all_lower_hex(g.refresh_token@)
            &&& g.refresh_token_id@.len() == 36
            &&& g.refresh_token_hash@ == crate::text::hex_lower(crate::auth::sha256(vstd::utf8::encode_utf8(g.refresh_token@)))
            &&& Some(g.refresh_expires_at@) == rfc3339_text(now.secs + REFRESH_TOKEN_TTL_DAYS * 86400, now.nanos as int)
            &&& Some(g.created_at@) == rfc3339_text(now.secs as int, now.nanos as int)
        },
        res is Err ==> internal(res),
{
    let access_token = access_token_at(user, secret, now.secs);
    let refresh_token = generate_refresh_token();
    let refresh_token_hash = hash_token(refresh_token.as_str());
    let refresh_token_id = crate::records::new_id();
    let refresh_expires_at = match rfc3339_after(now, REFRESH_TOKEN_TTL_DAYS * 86400) {
        Some(t) => t,
        None => return Err(AppError::Internal(String::from_str("timestamp out of range"))),
    };
    let created_at = match rfc3339_after(now, 0) {
        Some(t) => t,
        None => return Err(AppError::Internal(String::from_str("timestamp out of range"))),
    };
    Ok(SessionGrant {
        response: SessionResponse {
            access_token,
            token_type: String::from_str("Bearer"),
            expires_in: ACCESS_TOKEN_TTL_SECONDS,
        },
        refresh_token_id,
        refresh_token,
        refresh_token_hash,
        refresh_expires_at,
        created_at,
    })
}

/// Confirms a TOTP enrolment: the code must match the secret being enrolled.
pub fn mfa_verify(secret: &str, username: &str, code: &str) -> (res: Result<(), AppError>)
    ensures
        base32_bytes(secret@) is None ==> res is Err && res->Err_0 is BadRequest,
        base32_bytes(secret@) matches Some(b) && (b.len() < 16 || username@.contains(':')) ==> internal(res),
        res is Err ==> res->Err_0 is BadRequest || res->Err_0 is Internal,
        res is Ok ==> base32_bytes(secret@) is Some && code_of(base32_bytes(secret@)->0, code@),
{
    let matches = check_totp(secret, username, code)?;
    enrolment_verdict(matches)
}

/// The verdict on an enrolment code, once it has been checked: a code that
/// does not match is the caller's mistake.
pub fn enrolment_verdict(matches: bool) -> (res: Result<(), AppError>)
    ensures
        matches ==> res is Ok,
        !matches ==> bad_request(res, "invalid totp code"@),
{
    if matches {
        Ok(())
    } else {
        Err(AppError::BadRequest(String::from_str("invalid totp code")))
    }
}

/// The token of an `Authorization: Bearer <token>` header.
pub fn bearer_token(header: Option<&str>) -> (res: Result<String, AppError>)
    ensures
        header is None ==> unauthorized(res, "missing authorization header"@),
        header matches Some(h) && spec_strip_prefix(h@, "Bearer "@) is None ==> unauthorized(
            res,
            "authorization header must be a bearer token"@,
        ),
        header is Some && spec_strip_prefix(header->0@, "Bearer "@) is Some ==> (res matches Ok(v)
            && v@ == spec_strip_prefix(header->0@, "Bearer "@)->0),
{
    let h = match header {
        Some(h) => h,
        None => return Err(AppError::Unauthorized(String::from_str("missing authorization header"))),
    };
    match strip_prefix(h, "Bearer ") {
        Some(t) => Ok(t),
        None => Err(AppError::Unauthorized(String::from_str("authorization header must be a bearer token"))),
    }
}

/// The caller behind a verified token, from the stored user row (name and role).
pub fn current_user(id: String, row: Option<(String, String)>) -> (res: Result<CurrentUser, AppError>)
    ensures
        row is None ==> unauthorized(res, "user no longer exists"@),
        row is Some ==> (res matches Ok(c) && c.id == id && c.username == (row->0).0 && c.role == (row->0).1),
{
    match row {
        Some((username, role)) => Ok(CurrentUser { id, username, role }),
        None => Err(AppError::Unauthorized(String::from_str("user no longer exists"))),
    }
}

/// The kinds of bearer value a protected request may carry, all in the same
/// `Authorization: Bearer <value>` header.
#[derive(Debug, Clone, Copy, PartialEq, Eq)]
pub enum Credential {
    /// A session access token (JWT).
    Session,
    /// An OAuth access token.
    OauthAccess,
    /// A long-lived API token.
    ApiToken,
}

/// What authenticating a bearer value does next: try it as one kind of
/// credential, or stop with the caller (or the refusal).
#[derive(Debug, PartialEq, Eq)]
pub enum AuthStep {
    Try(Credential),
    Done(Result<CurrentUser, AppError>),
}

/// The kind of credential tried first: a session token, the cheapest check.
pub fn first_credential() -> (res: Credential)
    ensures
        res == Credential::Session,
{
    Credential::Session
}

/// The step after trying a bearer value as `tried`: a caller found is the
/// answer; a failure falls through, session token then OAuth access token
/// then API token, and the API token's failure is the refusal.
pub fn next_auth_step(tried: Credential, outcome: Result<CurrentUser, AppError>) -> (res: AuthStep)
    ensures
        outcome is Ok ==> res == AuthStep::Done(outcome),
        outcome is Err && tried == Credential::Session ==> res == AuthStep::Try(Credential::OauthAccess),
        outcome is Err && tried == Credential::OauthAccess ==> res == AuthStep::Try(Credential::ApiToken),
        outcome is Err && tried == Credential::ApiToken ==> res == AuthStep::Done(outcome),
{
    match outcome {
        Ok(u) => AuthStep::Done(Ok(u)),
        Err(e) => match tried {
            Credential::Session => AuthStep::Try(Credential::OauthAccess),
            Credential::OauthAccess => AuthStep::Try(Credential::ApiToken),
            Credential::ApiToken => AuthStep::Done(Err(e)),
        },
    }
}

/// The stored API token that a bearer value matches, if any. Tokens are
/// salted argon2 hashes, so every stored one is checked in turn, and the first
/// whose hash the value verifies against is taken; a stored hash that does
/// not parse counts as no match.
pub fn find_api_token(candidates: &Vec<ApiToken>, token: &str) -> (res: Result<usize, AppError>)
    ensures
        res matches Ok(k) ==> k < candidates.len() && phc_parses(candidates@[k as int].token_hash@)
            && argon2_matches(token@, candidates@[k as int].token_hash@) && forall|j: int|
            0 <= j < k ==> !(phc_parses(candidates@[j].token_hash@) && argon2_matches(token@, #[trigger] candidates@[j].token_hash@)),
        res is Err ==> unauthorized(res, "invalid bearer token"@) && forall|j: int|
            0 <= j < candidates.len() ==> !(phc_parses(candidates@[j].token_hash@) && argon2_matches(token@, #[trigger] candidates@[j].token_hash@)),
{
    let mut k: usize = 0;
    while k < candidates.len()
        invariant
            k <= candidates.len(),
            forall|j: int|
                0 <= j < k ==> !(phc_parses(candidates@[j].token_hash@) && argon2_matches(token@, #[trigger] candidates@[j].token_hash@)),
        decreases candidates.len() - k,
    {
        let ok = match verify_password(token, candidates[k].token_hash.as_str()) {
            Ok(b) => b,
            Err(_) => false,
        };
        if ok {
            return Ok(k);
        }
        k = k + 1;
    }
    Err(AppError::Unauthorized(String::from_str("invalid bearer token")))
}

/// The name of a new API token: trimmed, and not blank.
pub fn api_token_name(name: &str) -> (res: Result<String, AppError>)
    ensures
        trimmed(name@).len() == 0 ==> bad_request(res, "name is required"@),
        trimmed(name@).len() != 0 ==> (res matches Ok(n) && n@ == trimmed(name@)),
{
    let n = trim(name);
    if n.as_str().is_empty() {
        return Err(AppError::BadRequest(String::from_str("name is required")));
    }
    Ok(n)
}

/// A new API token of `user_id`: the store keeps only an argon2 hash of
/// `raw_token`, which the response shows this once.
pub fn new_api_token(id: String, user_id: String, name: String, raw_token: String, created_at: String) -> (res: Result<
    (ApiToken, CreateApiTokenResponse),
    AppError,
>)
    ensures
        res matches Ok((t, r)) ==> {
            &&& t.id == id && t.user_id == user_id && t.name == name && t.created_at == created_at
            &&& t.last_used_at is None
            &&& phc_parses(t.token_hash@) && argon2_matches(raw_token@, t.token_hash@)
            &&& t.token_hash@.len() > 0 && t.token_hash@[0] == '$'
            &&& (raw_token@.len() == 0 || raw_token@[0] != '$' ==> t.token_hash@ != raw_token@)
            &&& r.id == id && r.name == name && r.token == raw_token && r.created_at == created_at
        },
        vstd::utf8::encode_utf8(raw_token@).len() <= 0xFFFF_FFFF ==> res is Ok,
        res is Err ==> internal(res),
{
    let token_hash = hash_password(raw_token.as_str())?;
    let token = ApiToken {
        id: id.clone(),
        user_id,
        name: name.clone(),
        token_hash,
        created_at: created_at.clone(),
        last_used_at: None,
    };
    Ok((token, CreateApiTokenResponse { id, name, token: raw_token, created_at }))
}

} // verus!
