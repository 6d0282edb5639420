use cardflow::auth::{generate_totp_secret, hash_password, hash_token, verify_access_token, ACCESS_TOKEN_TTL_SECONDS};
use cardflow::clock::{rfc3339_after, Instant};
use cardflow::error::AppError;
use cardflow::models::{ApiToken, CurrentUser, User};
use cardflow::session::{
    api_token_name, bearer_token, first_credential, next_auth_step, AuthStep, Credential, check_refresh, current_user, find_api_token, issue_session, login,
    enrolment_verdict, login_second_factor, mfa_verify, new_api_token, refresh_cookie, revoke_refresh, LoginRequest,
    RefreshRow,
};

fn s(x: &str) -> String {
    x.to_string()
}

fn user(password: &str, totp: Option<String>) -> User {
    User {
        id: s("u1"),
        username: s("alice"),
        password_hash: hash_password(password).unwrap(),
        totp_secret: totp,
        role: s("user"),
        created_at: s("2024-01-01T00:00:00+00:00"),
    }
}

fn req(password: &str, code: Option<&str>) -> LoginRequest {
    LoginRequest { username: s("alice"), password: s(password), totp_code: code.map(s) }
}

#[test]
fn login_accepts_right_password() {
    let u = user("hunter22", None);
    assert_eq!(login(Some(u.clone()), &req("hunter22", None)), Ok(u));
}

#[test]
fn login_refusals() {
    let bad = Err(AppError::Unauthorized(s("invalid username or password")));
    assert_eq!(login(None, &req("x", None)), bad);
    assert_eq!(login(Some(user("hunter22", None)), &req("hunter23", None)), bad);
    let mut broken = user("hunter22", None);
    broken.password_hash = s("plain");
    assert!(matches!(login(Some(broken), &req("hunter22", None)), Err(AppError::Internal(_))));
}

#[test]
fn login_with_second_factor() {
    let (secret, _) = generate_totp_secret("alice").unwrap();
    let u = user("hunter22", Some(secret.clone()));
    assert_eq!(
        login(Some(u.clone()), &req("hunter22", None)),
        Err(AppError::Unauthorized(s("totp code required")))
    );
    assert_eq!(
        login(Some(u.clone()), &req("hunter22", Some("xxxxxx"))),
        Err(AppError::Unauthorized(s("invalid totp code")))
    );
    let bytes = totp_rs::Secret::Encoded(secret.clone()).to_bytes().unwrap();
    let totp = totp_rs::TOTP::new(totp_rs::Algorithm::SHA1, 6, 1, 30, bytes, Some(s("CardFlow")), s("alice")).unwrap();
    let code = totp.generate_current().unwrap();
    assert_eq!(login(Some(u.clone()), &req("hunter22", Some(&code))), Ok(u));
    assert_eq!(mfa_verify(&secret, "alice", &code), Ok(()));
    assert_eq!(mfa_verify(&secret, "alice", "000000x"), Err(AppError::BadRequest(s("invalid totp code"))));
}

#[test]
fn refresh_cookie_presence() {
    assert_eq!(refresh_cookie(Some(s("abc"))), Ok(s("abc")));
    assert_eq!(refresh_cookie(None), Err(AppError::Unauthorized(s("missing refresh token"))));
}

#[test]
fn check_refresh_outcomes() {
    let now = "2024-06-01T00:00:00+00:00";
    let live = RefreshRow { user_id: s("u1"), expires_at: s("2024-06-08T00:00:00+00:00"), revoked_at: None };
    assert_eq!(check_refresh(Some(live.clone()), now), Ok(s("u1")));
    assert_eq!(check_refresh(None, now), Err(AppError::Unauthorized(s("invalid refresh token"))));
    let expired = RefreshRow { expires_at: s("2024-05-31T00:00:00+00:00"), ..live.clone() };
    let revoked = RefreshRow { revoked_at: Some(s("2024-05-30T00:00:00+00:00")), ..live };
    let msg = Err(AppError::Unauthorized(s("refresh token expired or revoked")));
    assert_eq!(check_refresh(Some(expired), now), msg);
    assert_eq!(check_refresh(Some(revoked), now), msg);
}

#[test]
fn issue_session_grants_tokens() {
    let u = user("pw123456", None);
    let now = Instant { secs: 1_700_000_000, nanos: 0 };
    let g = issue_session(&u, b"secret", &now).unwrap();
    assert_eq!(g.response.token_type, "Bearer");
    assert_eq!(g.response.expires_in, ACCESS_TOKEN_TTL_SECONDS);
    assert_eq!(g.refresh_token.len(), 64);
    assert_eq!(g.refresh_token_hash, hash_token(&g.refresh_token));
    assert_eq!(Some(g.refresh_expires_at.clone()), rfc3339_after(&now, 7 * 86400));
    assert_eq!(g.created_at, "2023-11-14T22:13:20+00:00");
    assert_eq!(g.refresh_expires_at, "2023-11-21T22:13:20+00:00");
    // the access token carries the user and the issue time, and reads back under the same secret
    let c = verify_access_token(&g.response.access_token, b"secret");
    if let Ok(c) = c {
        assert_eq!((c.sub.as_str(), c.role.as_str(), c.iat, c.exp), ("u1", "user", 1_700_000_000, 1_700_007_200));
    }
    assert!(verify_access_token(&g.response.access_token, b"other").is_err());
    assert_eq!(g.response.access_token.split('.').count(), 3);
}

#[test]
fn issue_session_out_of_range_is_internal() {
    let u = user("pw123456", None);
    let now = Instant { secs: 9_999_999_999_999, nanos: 0 };
    assert!(matches!(issue_session(&u, b"secret", &now), Err(AppError::Internal(_))));
}

#[test]
fn totp_verdicts() {
    assert_eq!(login_second_factor(true), Ok(()));
    assert_eq!(login_second_factor(false), Err(AppError::Unauthorized(s("invalid totp code"))));
    assert_eq!(enrolment_verdict(true), Ok(()));
    assert_eq!(enrolment_verdict(false), Err(AppError::BadRequest(s("invalid totp code"))));
}

#[test]
fn used_refresh_token_is_refused() {
    let now = "2024-06-01T00:00:00+00:00";
    let live = RefreshRow { user_id: s("u1"), expires_at: s("2024-06-08T00:00:00+00:00"), revoked_at: None };
    assert_eq!(check_refresh(Some(live.clone()), now), Ok(s("u1")));
    let used = revoke_refresh(live.clone(), s(now));
    assert_eq!(used.revoked_at, Some(s(now)));
    assert_eq!(used.expires_at, live.expires_at);
    assert_eq!(
        check_refresh(Some(used), "2024-06-01T00:00:01+00:00"),
        Err(AppError::Unauthorized(s("refresh token expired or revoked")))
    );
}

#[test]
fn bearer_token_header() {
    assert_eq!(bearer_token(Some("Bearer abc")), Ok(s("abc")));
    assert_eq!(bearer_token(None), Err(AppError::Unauthorized(s("missing authorization header"))));
    assert_eq!(
        bearer_token(Some("Basic abc")),
        Err(AppError::Unauthorized(s("authorization header must be a bearer token")))
    );
}

#[test]
fn current_user_from_row() {
    let c = current_user(s("u1"), Some((s("alice"), s("admin")))).unwrap();
    assert_eq!((c.id.as_str(), c.username.as_str(), c.role.as_str()), ("u1", "alice", "admin"));
    assert_eq!(current_user(s("u1"), None), Err(AppError::Unauthorized(s("user no longer exists"))));
}

#[test]
fn api_token_lifecycle() {
    let (stored, shown) = new_api_token(s("t1"), s("u1"), s("ci"), s("rawvalue"), s("now")).unwrap();
    assert_eq!(shown.token, "rawvalue");
    assert_eq!(stored.last_used_at, None);
    assert_ne!(stored.token_hash, "rawvalue");
    let other = ApiToken { id: s("t0"), token_hash: hash_password("different").unwrap(), ..stored.clone() };
    let broken = ApiToken { id: s("tb"), token_hash: s("garbage"), ..stored.clone() };
    let candidates = vec![broken, other, stored];
    assert_eq!(find_api_token(&candidates, "rawvalue"), Ok(2));
    assert_eq!(find_api_token(&candidates, "nope"), Err(AppError::Unauthorized(s("invalid bearer token"))));
}

#[test]
fn api_token_name_is_trimmed() {
    assert_eq!(api_token_name("  laptop "), Ok(s("laptop")));
    assert_eq!(api_token_name("   "), Err(AppError::BadRequest(s("name is required"))));
}

#[test]
fn credentials_are_tried_in_order() {
    let who = CurrentUser { id: s("u1"), username: s("alice"), role: s("user") };
    let no = || Err(AppError::Unauthorized(s("nope")));
    assert_eq!(first_credential(), Credential::Session);
    assert_eq!(next_auth_step(Credential::Session, no()), AuthStep::Try(Credential::OauthAccess));
    assert_eq!(next_auth_step(Credential::OauthAccess, no()), AuthStep::Try(Credential::ApiToken));
    assert_eq!(next_auth_step(Credential::ApiToken, no()), AuthStep::Done(no()));
    assert_eq!(next_auth_step(Credential::Session, Ok(who.clone())), AuthStep::Done(Ok(who.clone())));
    assert_eq!(next_auth_step(Credential::OauthAccess, Ok(who.clone())), AuthStep::Done(Ok(who)));
}
