//! OAuth 2.1 authorization code grant with PKCE, for one statically
//! registered client: the authorize request, the token endpoint's client
//! check, and the two grants (code exchange, refresh).
use vstd::prelude::*;

use crate::auth::{b64url, generate_refresh_token, jwt_claims, pkce_verify, sha256, verify_access_token};
use crate::clock::{rfc3339_after, rfc3339_text, Instant};
use crate::error::{bad_request, internal, message, unauthorized, AppError};
use crate::models::{Claims, OauthToken};
use crate::records::new_id;
use crate::text::{constant_time_eq, seq_lt, spec_strip_prefix, str_eq, str_less, strip_prefix};
use crate::urls::{pair_views, parse_ok, url_parses, url_with_pairs, with_query};
use vstd::string::StringSliceAdditionalSpecFns;

verus! {

/// How long an authorization code may be exchanged, in seconds.
pub const OAUTH_CODE_TTL_SECONDS: i64 = 600;

/// How long an OAuth access token stays valid, in seconds (two hours).
pub const OAUTH_ACCESS_TOKEN_TTL_SECONDS: i64 = 7200;

/// How long an OAuth refresh token stays valid, in days.
pub const OAUTH_REFRESH_TOKEN_TTL_DAYS: i64 = 30;

/// A setting that counts only when set and not empty.
pub open spec fn present(setting: Option<String>) -> bool {
    setting is Some && setting->0@.len() > 0
}

/// A required setting: set and not empty, else the server is misconfigured.
fn required_setting(setting: Option<String>, missing: &str) -> (res: Result<String, AppError>)
    ensures
        present(setting) ==> res == Ok::<String, AppError>(setting->0),
        !present(setting) ==> internal(res) && message(res->Err_0) == missing@,
{
    match setting {
        Some(v) => {
            if v.as_str().is_empty() {
                Err(AppError::Internal(missing.to_owned()))
            } else {
                Ok(v)
            }
        },
        None => Err(AppError::Internal(missing.to_owned())),
    }
}

/// The registered client's id, from the `OAUTH_CLIENT_ID` setting.
pub fn oauth_client_id(setting: Option<String>) -> (res: Result<String, AppError>)
    ensures
        present(setting) ==> res == Ok::<String, AppError>(setting->0),
        !present(setting) ==> internal(res) && message(res->Err_0) == "OAuth is not configured on this server"@,
{
    required_setting(setting, "OAuth is not configured on this server")
}

/// The registered client's secret, from the `OAUTH_CLIENT_SECRET` setting.
pub fn oauth_client_secret(setting: Option<String>) -> (res: Result<String, AppError>)
    ensures
        present(setting) ==> res == Ok::<String, AppError>(setting->0),
        !present(setting) ==> internal(res) && message(res->Err_0) == "OAuth is not configured on this server"@,
{
    required_setting(setting, "OAuth is not configured on this server")
}

/// The frontend's public URL, from the `CARDFLOW_PUBLIC_URL` setting.
pub fn frontend_url(setting: Option<String>) -> (res: Result<String, AppError>)
    ensures
        present(setting) ==> res == Ok::<String, AppError>(setting->0),
        !present(setting) ==> internal(res) && message(res->Err_0) == "CARDFLOW_PUBLIC_URL is not configured"@,
{
    required_setting(setting, "CARDFLOW_PUBLIC_URL is not configured")
}

/// The query of an authorize request.
#[derive(Debug, Clone, PartialEq, Eq)]
pub struct AuthorizeQuery {
    pub response_type: Option<String>,
    pub client_id: Option<String>,
    pub redirect_uri: Option<String>,
    pub state: Option<String>,
    pub code_challenge: Option<String>,
    pub code_challenge_method: Option<String>,
    pub scope: Option<String>,
}

/// An authorize request that passed validation.
#[derive(Debug, Clone, PartialEq, Eq)]
pub struct ValidAuthorize {
    pub client_id: String,
    pub redirect_uri: String,
    pub code_challenge: String,
    pub state: Option<String>,
    pub scope: Option<String>,
}

/// The value, or "" when absent (`unwrap_or_default`).
pub open spec fn or_empty(v: Option<String>) -> Seq<char> {
    match v {
        Some(s) => s@,
        None => Seq::empty(),
    }
}

fn owned_or_empty(v: &Option<String>) -> (res: String)
    ensures
        res@ == or_empty(*v),
        v is Some ==> res == v->0,
{
    match v {
        Some(s) => s.clone(),
        None => String::new(),
    }
}

fn is_some_eq(v: &Option<String>, lit: &str) -> (res: bool)
    ensures
        res == (v is Some && v->0@ == lit@),
{
    match v {
        Some(s) => str_eq(s.as_str(), lit),
        None => false,
    }
}

/// Validates an authorize request against the registered client: the
/// response type must be "code", the client id the registered one, the
/// redirect URI present and a URL, the code challenge present, and its method
/// "S256" — checked in that order.
pub fn validate_authorize(params: &AuthorizeQuery, configured_client_id: &str) -> (res: Result<ValidAuthorize, AppError>)
    ensures
        !(params.response_type is Some && params.response_type->0@ == "code"@) ==> bad_request(
            res,
            "response_type must be \"code\""@,
        ),
        params.response_type is Some && params.response_type->0@ == "code"@ && or_empty(params.client_id)
            != configured_client_id@ ==> bad_request(res, "unknown client_id"@),
        params.response_type is Some && params.response_type->0@ == "code"@ && or_empty(params.client_id)
            == configured_client_id@ && !present(params.redirect_uri) ==> bad_request(res, "redirect_uri is required"@),
        params.response_type is Some && params.response_type->0@ == "code"@ && or_empty(params.client_id)
            == configured_client_id@ && present(params.redirect_uri) && !url_parses(params.redirect_uri->0@)
            ==> bad_request(res, "redirect_uri is not a valid URL"@),
        params.response_type is Some && params.response_type->0@ == "code"@ && or_empty(params.client_id)
            == configured_client_id@ && present(params.redirect_uri) && url_parses(params.redirect_uri->0@)
            && !present(params.code_challenge) ==> bad_request(res, "code_challenge is required"@),
        params.response_type is Some && params.response_type->0@ == "code"@ && or_empty(params.client_id)
            == configured_client_id@ && present(params.redirect_uri) && url_parses(params.redirect_uri->0@)
            && present(params.code_challenge) && !(params.code_challenge_method is Some
            && params.code_challenge_method->0@ == "S256"@) ==> bad_request(
            res,
            "code_challenge_method must be \"S256\""@,
        ),
        res matches Ok(v) ==> {
            &&& v.client_id@ == configured_client_id@
            &&& Some(v.redirect_uri) == params.redirect_uri && url_parses(v.redirect_uri@)
            &&& Some(v.code_challenge) == params.code_challenge && v.code_challenge@.len() > 0
            &&& params.code_challenge_method is Some && params.code_challenge_method->0@ == "S256"@
            &&& v.state == params.state && v.scope == params.scope
        },
        res is Err ==> res->Err_0 is BadRequest,
        res is Ok <==> validate_authorize_ok(params, configured_client_id@),
        authorize_refusal(params, configured_client_id@) matches Some(m) ==> bad_request(res, m),
        authorize_refusal(params, configured_client_id@) is None ==> res is Ok,
        configured_client_id@.len() > 0 && res is Ok ==> res == Ok::<ValidAuthorize, AppError>(validated(params)),
{
    if !is_some_eq(&params.response_type, "code") {
        return Err(AppError::BadRequest(String::from_str("response_type must be \"code\"")));
    }
    let client_id = owned_or_empty(&params.client_id);
    if !str_eq(client_id.as_str(), configured_client_id) {
        return Err(AppError::BadRequest(String::from_str("unknown client_id")));
    }
    let redirect_uri = match &params.redirect_uri {
        Some(r) => {
            if r.as_str().is_empty() {
                return Err(AppError::BadRequest(String::from_str("redirect_uri is required")));
            }
            r.clone()
        },
        None => return Err(AppError::BadRequest(String::from_str("redirect_uri is required"))),
    };
    if !parse_ok(redirect_uri.as_str()) {
        return Err(AppError::BadRequest(String::from_str("redirect_uri is not a valid URL")));
    }
    let code_challenge = match &params.code_challenge {
        Some(c) => {
            if c.as_str().is_empty() {
                return Err(AppError::BadRequest(String::from_str("code_challenge is required")));
            }
            c.clone()
        },
        None => return Err(AppError::BadRequest(String::from_str("code_challenge is required"))),
    };
    if !is_some_eq(&params.code_challenge_method, "S256") {
        return Err(AppError::BadRequest(String::from_str("code_challenge_method must be \"S256\"")));
    }
    Ok(ValidAuthorize {
        client_id,
        redirect_uri,
        code_challenge,
        state: crate::text::clone_opt(&params.state),
        scope: crate::text::clone_opt(&params.scope),
    })
}

/// The session claims of an authorize request, when it carries a valid
/// session token in `Authorization: Bearer <token>` and the signing secret is
/// configured; `None` sends the browser to log in first.
pub fn authorize_claims(header: Option<&str>, secret: Option<Vec<u8>>) -> (res: Option<Claims>)
    ensures
        header is None || secret is None ==> res is None,
        header matches Some(h) && spec_strip_prefix(h@, "Bearer "@) is None ==> res is None,
        header is Some && secret is Some && spec_strip_prefix(header->0@, "Bearer "@) is Some && !(jwt_claims(
            spec_strip_prefix(header->0@, "Bearer "@)->0,
            secret->0@,
        ) matches Some((Some(_), Some(_), Some(_), Some(_)))) ==> res is None,
        res matches Some(c) ==> header is Some && secret is Some && spec_strip_prefix(header->0@, "Bearer "@) is Some
            && jwt_claims(spec_strip_prefix(header->0@, "Bearer "@)->0, secret->0@) == Some(
            (Some(c.sub@), Some(c.role@), Some(c.iat as int), Some(c.exp as int)),
        ),
{
    let h = match header {
        Some(h) => h,
        None => return None,
    };
    let token = match strip_prefix(h, "Bearer ") {
        Some(t) => t,
        None => return None,
    };
    let secret = match secret {
        Some(s) => s,
        None => return None,
    };
    match verify_access_token(token.as_str(), secret.as_slice()) {
        Ok(c) => Some(c),
        Err(_) => None,
    }
}

fn pair(k: &str, v: &str) -> (res: (String, String))
    ensures
        res.0@ == k@,
        res.1@ == v@,
{
    (k.to_owned(), v.to_owned())
}

/// The query pairs that carry a validated authorize request on to the login page.
pub open spec fn login_pairs(req: ValidAuthorize) -> Seq<(Seq<char>, Seq<char>)> {
    let base = seq![
        ("response_type"@, "code"@),
        ("client_id"@, req.client_id@),
        ("redirect_uri"@, req.redirect_uri@),
        ("code_challenge"@, req.code_challenge@),
        ("code_challenge_method"@, "S256"@),
    ];
    let with_state = match req.state {
        Some(s) => base.push(("state"@, s@)),
        None => base,
    };
    match req.scope {
        Some(s) => with_state.push(("scope"@, s@)),
        None => with_state,
    }
}

/// Law: the login page receives the whole validated request. Its query holds
/// the response type, client, redirect URI, challenge and method; it holds
/// a `state` pair, with the request's value, exactly when the request gave a
/// state, and likewise a `scope` pair.
pub proof fn lemma_login_pairs_carry_request(req: ValidAuthorize)
    ensures
        ({
            let q = login_pairs(req);
            &&& q.contains(("response_type"@, "code"@))
            &&& q.contains(("client_id"@, req.client_id@))
            &&& q.contains(("redirect_uri"@, req.redirect_uri@))
            &&& q.contains(("code_challenge"@, req.code_challenge@))
            &&& q.contains(("code_challenge_method"@, "S256"@))
            &&& req.state matches Some(st) ==> q.contains(("state"@, st@))
            &&& req.scope matches Some(sc) ==> q.contains(("scope"@, sc@))
            &&& forall|k: int| 0 <= k < q.len() && (#[trigger] q[k]).0 == "state"@ ==> req.state is Some && q[k].1 == req.state->0@
            &&& forall|k: int| 0 <= k < q.len() && (#[trigger] q[k]).0 == "scope"@ ==> req.scope is Some && q[k].1 == req.scope->0@
        }),
{
    reveal_strlit("response_type");
    reveal_strlit("client_id");
    reveal_strlit("redirect_uri");
    reveal_strlit("code_challenge");
    reveal_strlit("code_challenge_method");
    reveal_strlit("state");
    reveal_strlit("scope");
    let q = login_pairs(req);
    assert(q[0] == ("response_type"@, "code"@));
    assert(q[1] == ("client_id"@, req.client_id@));
    assert(q[2] == ("redirect_uri"@, req.redirect_uri@));
    assert(q[3] == ("code_challenge"@, req.code_challenge@));
    assert(q[4] == ("code_challenge_method"@, "S256"@));
    if let Some(st) = req.state {
        assert(q[5] == ("state"@, st@));
    }
    if let Some(sc) = req.scope {
        assert(q[q.len() - 1] == ("scope"@, sc@));
    }
    assert("state"@[1] != "scope"@[1]);
    assert("state"@.len() != "response_type"@.len() && "state"@.len() != "client_id"@.len());
    assert("state"@.len() != "redirect_uri"@.len() && "state"@.len() != "code_challenge"@.len());
    assert("state"@.len() != "code_challenge_method"@.len());
    assert("scope"@.len() != "response_type"@.len() && "scope"@.len() != "client_id"@.len());
    assert("scope"@.len() != "redirect_uri"@.len() && "scope"@.len() != "code_challenge"@.len());
    assert("scope"@.len() != "code_challenge_method"@.len());
}

/// Where an unauthenticated browser goes: the frontend's login page for
/// OAuth, with the validated request carried in its query.
pub fn login_redirect(frontend: &str, req: &ValidAuthorize) -> (res: Result<String, AppError>)
    ensures
        res matches Ok(u) ==> Some(u@) == url_with_pairs(frontend@ + "/oauth/authorize"@, login_pairs(*req)),
        res is Err <==> !url_parses(frontend@ + "/oauth/authorize"@),
        res is Err ==> internal(res) && message(res->Err_0) == "CARDFLOW_PUBLIC_URL is not a valid URL"@,
{
    let base = crate::text::concat(frontend, "/oauth/authorize");
    let mut pairs: Vec<(String, String)> = Vec::new();
    pairs.push(pair("response_type", "code"));
    pairs.push(pair("client_id", req.client_id.as_str()));
    pairs.push(pair("redirect_uri", req.redirect_uri.as_str()));
    pairs.push(pair("code_challenge", req.code_challenge.as_str()));
    pairs.push(pair("code_challenge_method", "S256"));
    if let Some(s) = &req.state {
        pairs.push(pair("state", s.as_str()));
    }
    if let Some(s) = &req.scope {
        pairs.push(pair("scope", s.as_str()));
    }
    assert(pair_views(pairs@) =~= login_pairs(*req));
    match with_query(base.as_str(), &pairs) {
        Some(u) => Ok(u),
        None => Err(AppError::Internal(String::from_str("CARDFLOW_PUBLIC_URL is not a valid URL"))),
    }
}

/// A newly minted authorization code: the grant row to store, and where the
/// browser goes next.
#[derive(Debug, Clone, PartialEq, Eq)]
pub struct CodeGrant {
    pub row: OauthToken,
    pub redirect_to: String,
}

/// The query pairs that carry a minted code back to the client.
pub open spec fn code_pairs(code: Seq<char>, state: Option<String>) -> Seq<(Seq<char>, Seq<char>)> {
    match state {
        Some(s) => seq![("code"@, code), ("state"@, s@)],
        None => seq![("code"@, code)],
    }
}

/// What a code minted at `now` for `user_id` on the validated request `req`
/// is: a fresh record id, a fresh 64-digit code valid for
/// `OAUTH_CODE_TTL_SECONDS`, the request's challenge (S256), redirect URI and
/// client, no tokens yet; the browser goes to the redirect URI with `code`
/// (and `state`, when given) appended to its query.
pub open spec fn minted(g: CodeGrant, req: ValidAuthorize, user_id: String, now: Instant) -> bool {
    &&& g.row.id@.len() == 36
    &&& g.row.user_id == user_id
    &&& g.row.code is Some && g.row.code->0@.len() == 64
    &&& g.row.code_expires_at is Some && Some(g.row.code_expires_at->0@) == rfc3339_text(
        now.secs + OAUTH_CODE_TTL_SECONDS,
        now.nanos as int,
    )
    &&& g.row.code_challenge == Some(req.code_challenge)
    &&& g.row.code_challenge_method is Some && g.row.code_challenge_method->0@ == "S256"@
    &&& g.row.redirect_uri == Some(req.redirect_uri)
    &&& g.row.access_token is None && g.row.access_expires_at is None
    &&& g.row.refresh_token is None && g.row.refresh_expires_at is None
    &&& g.row.client_id == req.client_id
    &&& Some(g.row.created_at@) == rfc3339_text(now.secs as int, now.nanos as int)
    &&& Some(g.redirect_to@) == url_with_pairs(req.redirect_uri@, code_pairs(g.row.code->0@, req.state))
}

/// The code's expiry and its creation time, as of `now`, lie within chrono's dates.
pub open spec fn code_times_known(now: Instant) -> bool {
    &&& rfc3339_text(now.secs + OAUTH_CODE_TTL_SECONDS, now.nanos as int) is Some
    &&& rfc3339_text(now.secs as int, now.nanos as int) is Some
}

/// Mints an authorization code for `user_id` on an authenticated request at `now`.
fn mint_code(req: &ValidAuthorize, user_id: String, now: &Instant) -> (res: Result<CodeGrant, AppError>)
    requires
        url_parses(req.redirect_uri@),
        -10_000_000_000_000 < now.secs < 10_000_000_000_000,
    ensures
        res matches Ok(g) ==> minted(g, *req, user_id, *now),
        res is Ok <==> code_times_known(*now),
        res is Err ==> internal(res),
{
    let id = new_id();
    let code = generate_refresh_token();
    let code_expires_at = match rfc3339_after(now, OAUTH_CODE_TTL_SECONDS) {
        Some(t) => t,
        None => return Err(AppError::Internal(String::from_str("timestamp out of range"))),
    };
    let created_at = match rfc3339_after(now, 0) {
        Some(t) => t,
        None => return Err(AppError::Internal(String::from_str("timestamp out of range"))),
    };
    let mut pairs: Vec<(String, String)> = Vec::new();
    pairs.push(pair("code", code.as_str()));
    if let Some(s) = &req.state {
        pairs.push(pair("state", s.as_str()));
    }
    assert(pair_views(pairs@) =~= code_pairs(code@, req.state));
    let redirect_to = match with_query(req.redirect_uri.as_str(), &pairs) {
        Some(u) => u,
        None => return Err(AppError::Internal(String::from_str("redirect_uri is not a valid URL"))),
    };
    let row = OauthToken {
        id,
        user_id,
        code: Some(code),
        code_expires_at: Some(code_expires_at),
        code_challenge: Some(req.code_challenge.clone()),
        code_challenge_method: Some(String::from_str("S256")),
        redirect_uri: Some(req.redirect_uri.clone()),
        access_token: None,
        access_expires_at: None,
        refresh_token: None,
        refresh_expires_at: None,
        client_id: req.client_id.clone(),
        created_at,
    };
    Ok(CodeGrant { row, redirect_to })
}

/// What an authorize request leads to.
#[derive(Debug, Clone, PartialEq, Eq)]
pub enum AuthorizeOutcome {
    /// Not signed in yet: send the browser to this login page URL.
    Login(String),
    /// Signed in: store the grant's row, and send the browser to its `redirect_to`.
    Code(CodeGrant),
}

/// The authorize endpoint: the client must be configured (`OAUTH_CLIENT_ID`)
/// and the request pass validation against it; without a session, the
/// browser is forwarded to the frontend's login page; with one, a code is
/// minted for the session's user at `now`.
pub fn authorize(
    params: &AuthorizeQuery,
    client_id_setting: Option<String>,
    session: Option<Claims>,
    frontend_setting: Option<String>,
    now: &Instant,
) -> (res: Result<AuthorizeOutcome, AppError>)
    requires
        -10_000_000_000_000 < now.secs < 10_000_000_000_000,
    ensures
        !present(client_id_setting) ==> internal(res) && message(res->Err_0) == "OAuth is not configured on this server"@,
        present(client_id_setting) && authorize_refusal(params, client_id_setting->0@) is Some ==> bad_request(
            res,
            authorize_refusal(params, client_id_setting->0@)->0,
        ),
        present(client_id_setting) && !validate_authorize_ok(params, client_id_setting->0@) ==> res is Err
            && res->Err_0 is BadRequest,
        present(client_id_setting) && validate_authorize_ok(params, client_id_setting->0@) && session is None ==> {
            &&& (!present(frontend_setting) ==> internal(res) && message(res->Err_0) == "CARDFLOW_PUBLIC_URL is not configured"@)
            &&& (present(frontend_setting) ==> match res {
                Ok(AuthorizeOutcome::Login(u)) => Some(u@) == url_with_pairs(
                    frontend_setting->0@ + "/oauth/authorize"@,
                    login_pairs(validated(params)),
                ),
                Ok(_) => false,
                Err(e) => e is Internal && !url_parses(frontend_setting->0@ + "/oauth/authorize"@),
            })
        },
        present(client_id_setting) && validate_authorize_ok(params, client_id_setting->0@) && session is Some ==> match res {
            Ok(AuthorizeOutcome::Code(g)) => minted(g, validated(params), session->0.sub, *now),
            Ok(_) => false,
            Err(e) => e is Internal && !code_times_known(*now),
        },
{
    let configured = match oauth_client_id(client_id_setting) {
        Ok(c) => c,
        Err(e) => return Err(e),
    };
    let req = match validate_authorize(params, configured.as_str()) {
        Ok(r) => r,
        Err(e) => return Err(e),
    };
    match session {
        None => {
            let frontend = match frontend_url(frontend_setting) {
                Ok(f) => f,
                Err(e) => return Err(e),
            };
            match login_redirect(frontend.as_str(), &req) {
                Ok(url) => Ok(AuthorizeOutcome::Login(url)),
                Err(e) => Err(e),
            }
        },
        Some(claims) => match mint_code(&req, claims.sub, now) {
            Ok(grant) => Ok(AuthorizeOutcome::Code(grant)),
            Err(e) => Err(e),
        },
    }
}

/// Why an authorize request is refused, as the message of its `BadRequest`;
/// `None` when it passes. The checks run in the order `validate_authorize`
/// makes them.
pub open spec fn authorize_refusal(params: &AuthorizeQuery, configured_client_id: Seq<char>) -> Option<Seq<char>> {
    if !(params.response_type is Some && params.response_type->0@ == "code"@) {
        Some("response_type must be \"code\""@)
    } else if or_empty(params.client_id) != configured_client_id {
        Some("unknown client_id"@)
    } else if !present(params.redirect_uri) {
        Some("redirect_uri is required"@)
    } else if !url_parses(params.redirect_uri->0@) {
        Some("redirect_uri is not a valid URL"@)
    } else if !present(params.code_challenge) {
        Some("code_challenge is required"@)
    } else if !(params.code_challenge_method is Some && params.code_challenge_method->0@ == "S256"@) {
        Some("code_challenge_method must be \"S256\""@)
    } else {
        None
    }
}

/// The validated form of an authorize request that passes validation.
pub open spec fn validated(params: &AuthorizeQuery) -> ValidAuthorize {
    ValidAuthorize {
        client_id: params.client_id->0,
        redirect_uri: params.redirect_uri->0,
        code_challenge: params.code_challenge->0,
        state: params.state,
        scope: params.scope,
    }
}

/// The authorize request passes validation: response type "code", the
/// registered client, a redirect URI that is a URL, a code challenge, S256.
pub open spec fn validate_authorize_ok(params: &AuthorizeQuery, configured_client_id: Seq<char>) -> bool {
    &&& params.response_type is Some && params.response_type->0@ == "code"@
    &&& or_empty(params.client_id) == configured_client_id
    &&& present(params.redirect_uri) && url_parses(params.redirect_uri->0@)
    &&& present(params.code_challenge)
    &&& params.code_challenge_method is Some && params.code_challenge_method->0@ == "S256"@
}

/// The form of a token request.
#[derive(Debug, Clone, PartialEq, Eq)]
pub struct TokenRequest {
    pub grant_type: String,
    pub code: Option<String>,
    pub redirect_uri: Option<String>,
    pub code_verifier: Option<String>,
    pub refresh_token: Option<String>,
    pub client_id: Option<String>,
    pub client_secret: Option<String>,
}

/// The two grants the token endpoint serves.
#[derive(Debug, Clone, PartialEq, Eq)]
pub enum Grant {
    AuthorizationCode,
    RefreshToken,
}

/// Authenticates the client (`client_secret_post`, compared without stopping
/// early) and picks the grant.
pub fn token_grant(req: &TokenRequest, configured_client_id: &str, configured_client_secret: &str) -> (res: Result<Grant, AppError>)
    ensures
        (or_empty(req.client_id) != configured_client_id@ || or_empty(req.client_secret) != configured_client_secret@)
            ==> unauthorized(res, "invalid client credentials"@),
        or_empty(req.client_id) == configured_client_id@ && or_empty(req.client_secret) == configured_client_secret@
            ==> {
            &&& req.grant_type@ == "authorization_code"@ ==> (res matches Ok(Grant::AuthorizationCode))
            &&& req.grant_type@ == "refresh_token"@ ==> (res matches Ok(Grant::RefreshToken))
            &&& req.grant_type@ != "authorization_code"@ && req.grant_type@ != "refresh_token"@ ==> bad_request(
                res,
                "unsupported grant_type"@,
            )
        },
{
    let client_id = owned_or_empty(&req.client_id);
    let client_secret = owned_or_empty(&req.client_secret);
    if !constant_time_eq(client_id.as_str(), configured_client_id) || !constant_time_eq(
        client_secret.as_str(),
        configured_client_secret,
    ) {
        return Err(AppError::Unauthorized(String::from_str("invalid client credentials")));
    }
    proof {
        reveal_strlit("authorization_code");
        reveal_strlit("refresh_token");
        assert("authorization_code"@.len() != "refresh_token"@.len());
        assert("authorization_code"@ != "refresh_token"@);
    }
    if str_eq(req.grant_type.as_str(), "authorization_code") {
        Ok(Grant::AuthorizationCode)
    } else if str_eq(req.grant_type.as_str(), "refresh_token") {
        Ok(Grant::RefreshToken)
    } else {
        Err(AppError::BadRequest(String::from_str("unsupported grant_type")))
    }
}

/// The fields a code exchange needs: the code, the redirect URI and the PKCE verifier.
pub fn code_exchange_fields(req: &TokenRequest) -> (res: Result<(String, String, String), AppError>)
    ensures
        req.code is None ==> bad_request(res, "code is required"@),
        req.code is Some && req.redirect_uri is None ==> bad_request(res, "redirect_uri is required"@),
        req.code is Some && req.redirect_uri is Some && req.code_verifier is None ==> bad_request(
            res,
            "code_verifier is required"@,
        ),
        req.code is Some && req.redirect_uri is Some && req.code_verifier is Some ==> res == Ok::<
            (String, String, String),
            AppError,
        >((req.code->0, req.redirect_uri->0, req.code_verifier->0)),
{
    let code = match &req.code {
        Some(c) => c.clone(),
        None => return Err(AppError::BadRequest(String::from_str("code is required"))),
    };
    let redirect_uri = match &req.redirect_uri {
        Some(r) => r.clone(),
        None => return Err(AppError::BadRequest(String::from_str("redirect_uri is required"))),
    };
    let code_verifier = match &req.code_verifier {
        Some(v) => v.clone(),
        None => return Err(AppError::BadRequest(String::from_str("code_verifier is required"))),
    };
    Ok((code, redirect_uri, code_verifier))
}

/// A refused grant, and whether the stored code must be cleared first (an
/// expired code is cleared, as it is of no more use).
#[derive(Debug, Clone, PartialEq, Eq)]
pub struct Refusal {
    pub error: AppError,
    pub clear_code: bool,
}

/// A refused grant that leaves the stored row alone.
pub open spec fn refused<T>(r: Result<T, Refusal>, m: Seq<char>, clear: bool) -> bool {
    r is Err && r->Err_0.error is BadRequest && message(r->Err_0.error) == m && r->Err_0.clear_code == clear
}

/// Why a code exchange at time `now` (RFC 3339 text) is refused, as its
/// message and whether the stored code is cleared; `None` when it is granted.
/// The row the code selects must exist, be issued to this client, be
/// unexpired, be for this redirect URI, and carry an S256 challenge that the
/// verifier meets — checked in that order.
pub open spec fn code_refusal(
    row: Option<OauthToken>,
    client_id: Option<String>,
    redirect_uri: Seq<char>,
    verifier: Seq<u8>,
    now: Seq<char>,
) -> Option<(Seq<char>, bool)> {
    match row {
        None => Some(("invalid_grant: unknown code"@, false)),
        Some(r) => if r.client_id@ != or_empty(client_id) {
            Some(("invalid_grant: client_id mismatch"@, false))
        } else if seq_lt(or_empty(r.code_expires_at), now) {
            Some(("invalid_grant: code expired"@, true))
        } else if !(r.redirect_uri is Some && r.redirect_uri->0@ == redirect_uri) {
            Some(("invalid_grant: redirect_uri mismatch"@, false))
        } else if !(r.code_challenge_method is Some && r.code_challenge_method->0@ == "S256"@) {
            Some(("invalid_grant: unsupported code_challenge_method"@, false))
        } else if b64url(sha256(verifier)) != or_empty(r.code_challenge) {
            Some(("invalid_grant: PKCE verification failed"@, false))
        } else {
            None
        }
    }
}

/// Checks a code exchange at time `now` (RFC 3339 text) against the row the
/// code selects (see `code_refusal`).
pub fn check_code_exchange(
    row: Option<&OauthToken>,
    client_id: &Option<String>,
    redirect_uri: &str,
    code_verifier: &str,
    now: &str,
) -> (res: Result<(), Refusal>)
    ensures
        ({
            let row_v = match row {
                Some(r) => Some(*r),
                None => None,
            };
            match code_refusal(row_v, *client_id, redirect_uri@, code_verifier.spec_bytes(), now@) {
                None => res is Ok,
                Some((m, clear)) => refused(res, m, clear),
            }
        }),
{
    let row = match row {
        Some(r) => r,
        None => return Err(Refusal { error: AppError::BadRequest(String::from_str("invalid_grant: unknown code")), clear_code: false }),
    };
    let cid = owned_or_empty(client_id);
    if !str_eq(row.client_id.as_str(), cid.as_str()) {
        return Err(Refusal { error: AppError::BadRequest(String::from_str("invalid_grant: client_id mismatch")), clear_code: false });
    }
    let expires = owned_or_empty(&row.code_expires_at);
    if str_less(expires.as_str(), now) {
        return Err(Refusal { error: AppError::BadRequest(String::from_str("invalid_grant: code expired")), clear_code: true });
    }
    if !is_some_eq(&row.redirect_uri, redirect_uri) {
        return Err(Refusal { error: AppError::BadRequest(String::from_str("invalid_grant: redirect_uri mismatch")), clear_code: false });
    }
    if !is_some_eq(&row.code_challenge_method, "S256") {
        return Err(Refusal {
            error: AppError::BadRequest(String::from_str("invalid_grant: unsupported code_challenge_method")),
            clear_code: false,
        });
    }
    let challenge = owned_or_empty(&row.code_challenge);
    if !pkce_verify(code_verifier, challenge.as_str()) {
        return Err(Refusal { error: AppError::BadRequest(String::from_str("invalid_grant: PKCE verification failed")), clear_code: false });
    }
    Ok(())
}

/// Checks a refresh grant at time `now` against the row its refresh token
/// selects: known, issued to this client, unexpired.
pub fn check_refresh_exchange(row: Option<&OauthToken>, client_id: &Option<String>, now: &str) -> (res: Result<(), AppError>)
    ensures
        row is None ==> bad_request(res, "invalid_grant: unknown refresh_token"@),
        row matches Some(r) && r.client_id@ != or_empty(*client_id) ==> bad_request(res, "invalid_grant: client_id mismatch"@),
        row matches Some(r) && r.client_id@ == or_empty(*client_id) && seq_lt(or_empty(r.refresh_expires_at), now@)
            ==> bad_request(res, "invalid_grant: refresh_token expired"@),
        row matches Some(r) && r.client_id@ == or_empty(*client_id) && !seq_lt(or_empty(r.refresh_expires_at), now@)
            ==> res is Ok,
{
    let row = match row {
        Some(r) => r,
        None => return Err(AppError::BadRequest(String::from_str("invalid_grant: unknown refresh_token"))),
    };
    let cid = owned_or_empty(client_id);
    if !str_eq(row.client_id.as_str(), cid.as_str()) {
        return Err(AppError::BadRequest(String::from_str("invalid_grant: client_id mismatch")));
    }
    let expires = owned_or_empty(&row.refresh_expires_at);
    if str_less(expires.as_str(), now) {
        return Err(AppError::BadRequest(String::from_str("invalid_grant: refresh_token expired")));
    }
    Ok(())
}

/// The refresh token a refresh grant must carry.
pub fn refresh_exchange_field(req: &TokenRequest) -> (res: Result<String, AppError>)
    ensures
        req.refresh_token is None ==> bad_request(res, "refresh_token is required"@),
        req.refresh_token is Some ==> res == Ok::<String, AppError>(req.refresh_token->0),
{
    match &req.refresh_token {
        Some(t) => Ok(t.clone()),
        None => Err(AppError::BadRequest(String::from_str("refresh_token is required"))),
    }
}

/// The body of a token response.
#[derive(Debug, Clone, PartialEq, Eq)]
pub struct TokenResponse {
    pub access_token: String,
    pub token_type: String,
    pub expires_in: i64,
    pub refresh_token: String,
}

/// Fresh tokens for a grant at `now`: a random access token valid for
/// `OAUTH_ACCESS_TOKEN_TTL_SECONDS` and a random refresh token valid for
/// `OAUTH_REFRESH_TOKEN_TTL_DAYS`, with their expiry times.
#[derive(Debug, Clone, PartialEq, Eq)]
pub struct IssuedTokens {
    pub response: TokenResponse,
    pub access_expires_at: String,
    pub refresh_expires_at: String,
}

/// Both expiry times of tokens issued at `now` lie within chrono's dates.
pub open spec fn expiries_known(now: Instant) -> bool {
    &&& rfc3339_text(now.secs + OAUTH_ACCESS_TOKEN_TTL_SECONDS, now.nanos as int) is Some
    &&& rfc3339_text(now.secs + OAUTH_REFRESH_TOKEN_TTL_DAYS * 86400, now.nanos as int) is Some
}

/// Issues fresh access and refresh tokens at `now`.
pub fn issue_tokens(now: &Instant) -> (res: Result<IssuedTokens, AppError>)
    requires
        -10_000_000_000_000 < now.secs < 10_000_000_000_000,
    ensures
        res matches Ok(t) ==> {
            &&& t.response.token_type@ == "Bearer"@
            &&& t.response.expires_in == OAUTH_ACCESS_TOKEN_TTL_SECONDS
            &&& t.response.access_token@.len() == 64
            &&& t.response.refresh_token@.len() == 64
            &&& Some(t.access_expires_at@) == rfc3339_text(now.secs + OAUTH_ACCESS_TOKEN_TTL_SECONDS, now.nanos as int)
            &&& Some(t.refresh_expires_at@) == rfc3339_text(now.secs + OAUTH_REFRESH_TOKEN_TTL_DAYS * 86400, now.nanos as int)
        },
        res is Ok <==> expiries_known(*now),
        res is Err ==> internal(res),
{
    let access_token = generate_refresh_token();
    let refresh_token = generate_refresh_token();
    let access_expires_at = match rfc3339_after(now, OAUTH_ACCESS_TOKEN_TTL_SECONDS) {
        Some(t) => t,
        None => return Err(AppError::Internal(String::from_str("timestamp out of range"))),
    };
    let refresh_expires_at = match rfc3339_after(now, OAUTH_REFRESH_TOKEN_TTL_DAYS * 86400) {
        Some(t) => t,
        None => return Err(AppError::Internal(String::from_str("timestamp out of range"))),
    };
    Ok(IssuedTokens {
        response: TokenResponse {
            access_token,
            token_type: String::from_str("Bearer"),
            expires_in: OAUTH_ACCESS_TOKEN_TTL_SECONDS,
            refresh_token,
        },
        access_expires_at,
        refresh_expires_at,
    })
}

/// The grant row after its code was exchanged: the code and everything bound
/// to it are gone, and the given tokens are in place.
pub open spec fn exchanged_row(
    row: OauthToken,
    access: String,
    access_expires_at: String,
    refresh: String,
    refresh_expires_at: String,
) -> OauthToken {
    OauthToken {
        code: None,
        code_expires_at: None,
        code_challenge: None,
        code_challenge_method: None,
        redirect_uri: None,
        access_token: Some(access),
        access_expires_at: Some(access_expires_at),
        refresh_token: Some(refresh),
        refresh_expires_at: Some(refresh_expires_at),
        ..row
    }
}

/// The grant row after a refresh: the tokens and their expiry times are
/// replaced, nothing else changes.
pub open spec fn refreshed_row(
    row: OauthToken,
    access: String,
    access_expires_at: String,
    refresh: String,
    refresh_expires_at: String,
) -> OauthToken {
    OauthToken {
        access_token: Some(access),
        access_expires_at: Some(access_expires_at),
        refresh_token: Some(refresh),
        refresh_expires_at: Some(refresh_expires_at),
        ..row
    }
}

/// The grant row after its code was exchanged for `tokens`.
pub fn exchanged(row: OauthToken, tokens: &IssuedTokens) -> (res: OauthToken)
    ensures
        res == exchanged_row(
            row,
            tokens.response.access_token,
            tokens.access_expires_at,
            tokens.response.refresh_token,
            tokens.refresh_expires_at,
        ),
{
    OauthToken {
        code: None,
        code_expires_at: None,
        code_challenge: None,
        code_challenge_method: None,
        redirect_uri: None,
        access_token: Some(tokens.response.access_token.clone()),
        access_expires_at: Some(tokens.access_expires_at.clone()),
        refresh_token: Some(tokens.response.refresh_token.clone()),
        refresh_expires_at: Some(tokens.refresh_expires_at.clone()),
        ..row
    }
}

/// The grant row after a refresh that issued `tokens`.
pub fn refreshed(row: OauthToken, tokens: &IssuedTokens) -> (res: OauthToken)
    ensures
        res == refreshed_row(
            row,
            tokens.response.access_token,
            tokens.access_expires_at,
            tokens.response.refresh_token,
            tokens.refresh_expires_at,
        ),
{
    OauthToken {
        access_token: Some(tokens.response.access_token.clone()),
        access_expires_at: Some(tokens.access_expires_at.clone()),
        refresh_token: Some(tokens.response.refresh_token.clone()),
        refresh_expires_at: Some(tokens.refresh_expires_at.clone()),
        ..row
    }
}

/// The grant row once its expired code is cleaned up: the code, its
/// challenge and its redirect URI are gone, nothing else changes.
pub fn expired_code_cleared(row: OauthToken) -> (res: OauthToken)
    ensures
        res == (OauthToken {
            code: None,
            code_challenge: None,
            code_challenge_method: None,
            redirect_uri: None,
            ..row
        }),
{
    OauthToken { code: None, code_challenge: None, code_challenge_method: None, redirect_uri: None, ..row }
}

/// The tokens a granted exchange at `now` hands out are well formed: a
/// bearer access token valid for `OAUTH_ACCESS_TOKEN_TTL_SECONDS`, fresh
/// 64-digit tokens, and the expiry times the row records.
pub open spec fn granted_at(r: OauthToken, resp: TokenResponse, now: Instant) -> bool {
    &&& resp.token_type@ == "Bearer"@
    &&& resp.expires_in == OAUTH_ACCESS_TOKEN_TTL_SECONDS
    &&& resp.access_token@.len() == 64
    &&& resp.refresh_token@.len() == 64
    &&& r.access_token == Some(resp.access_token)
    &&& r.refresh_token == Some(resp.refresh_token)
    &&& r.access_expires_at is Some && Some(r.access_expires_at->0@) == rfc3339_text(
        now.secs + OAUTH_ACCESS_TOKEN_TTL_SECONDS,
        now.nanos as int,
    )
    &&& r.refresh_expires_at is Some && Some(r.refresh_expires_at->0@) == rfc3339_text(
        now.secs + OAUTH_REFRESH_TOKEN_TTL_DAYS * 86400,
        now.nanos as int,
    )
}

/// The authorization code grant at `now`: checks the row the code selects
/// (see `code_refusal`, against the RFC 3339 text of `now`), then issues
/// fresh tokens; the row to store is the exchanged one.
pub fn exchange_code(
    row: Option<OauthToken>,
    client_id: &Option<String>,
    redirect_uri: &str,
    code_verifier: &str,
    now: &Instant,
) -> (res: Result<(OauthToken, TokenResponse), Refusal>)
    requires
        -10_000_000_000_000 < now.secs < 10_000_000_000_000,
    ensures
        row is None ==> refused(res, "invalid_grant: unknown code"@, false),
        row is Some && rfc3339_text(now.secs as int, now.nanos as int) is None ==> res is Err && res->Err_0.error is Internal,
        res is Err && res->Err_0.error is Internal ==> !res->Err_0.clear_code,
        rfc3339_text(now.secs as int, now.nanos as int) matches Some(t) ==> match code_refusal(
            row,
            *client_id,
            redirect_uri@,
            code_verifier.spec_bytes(),
            t,
        ) {
            Some((m, clear)) => refused(res, m, clear),
            None => (res is Ok <==> expiries_known(*now)) && (res is Err ==> res->Err_0.error is Internal),
        },
        res matches Ok((r, resp)) ==> row is Some && granted_at(r, resp, *now) && r == exchanged_row(
            row->0,
            resp.access_token,
            r.access_expires_at->0,
            resp.refresh_token,
            r.refresh_expires_at->0,
        ),
{
    let row = match row {
        Some(r) => r,
        None => return Err(Refusal { error: AppError::BadRequest(String::from_str("invalid_grant: unknown code")), clear_code: false }),
    };
    let now_text = match rfc3339_after(now, 0) {
        Some(t) => t,
        None => return Err(Refusal { error: AppError::Internal(String::from_str("timestamp out of range")), clear_code: false }),
    };
    check_code_exchange(Some(&row), client_id, redirect_uri, code_verifier, now_text.as_str())?;
    let tokens = match issue_tokens(now) {
        Ok(t) => t,
        Err(e) => return Err(Refusal { error: e, clear_code: false }),
    };
    let stored = exchanged(row, &tokens);
    Ok((stored, tokens.response))
}

/// The refresh token grant at `now`: checks the row the refresh token
/// selects (see `check_refresh_exchange`, against the RFC 3339 text of
/// `now`), then rotates both tokens; the row to store is the refreshed one.
pub fn exchange_refresh(row: Option<OauthToken>, client_id: &Option<String>, now: &Instant) -> (res: Result<
    (OauthToken, TokenResponse),
    AppError,
>)
    requires
        -10_000_000_000_000 < now.secs < 10_000_000_000_000,
    ensures
        row is None ==> bad_request(res, "invalid_grant: unknown refresh_token"@),
        row is Some && rfc3339_text(now.secs as int, now.nanos as int) is None ==> internal(res),
        rfc3339_text(now.secs as int, now.nanos as int) matches Some(t) ==> {
            &&& (row is None ==> bad_request(res, "invalid_grant: unknown refresh_token"@))
            &&& (row matches Some(r) && r.client_id@ != or_empty(*client_id) ==> bad_request(
                res,
                "invalid_grant: client_id mismatch"@,
            ))
            &&& (row matches Some(r) && r.client_id@ == or_empty(*client_id) && seq_lt(or_empty(r.refresh_expires_at), t)
                ==> bad_request(res, "invalid_grant: refresh_token expired"@))
            &&& (row matches Some(r) && r.client_id@ == or_empty(*client_id) && !seq_lt(or_empty(r.refresh_expires_at), t)
                ==> (res is Ok <==> expiries_known(*now)) && (res is Err ==> internal(res)))
        },
        res matches Ok((r, resp)) ==> row is Some && granted_at(r, resp, *now) && r == refreshed_row(
            row->0,
            resp.access_token,
            r.access_expires_at->0,
            resp.refresh_token,
            r.refresh_expires_at->0,
        ),
{
    let row = match row {
        Some(r) => r,
        None => return Err(AppError::BadRequest(String::from_str("invalid_grant: unknown refresh_token"))),
    };
    let now_text = match rfc3339_after(now, 0) {
        Some(t) => t,
        None => return Err(AppError::Internal(String::from_str("timestamp out of range"))),
    };
    check_refresh_exchange(Some(&row), client_id, now_text.as_str())?;
    let tokens = issue_tokens(now)?;
    let stored = refreshed(row, &tokens);
    Ok((stored, tokens.response))
}

/// The user behind an OAuth access token at time `now` (RFC 3339 text): the
/// grant row that the bearer value selects must hold an access token whose
/// expiry does not sort before `now`.
pub fn oauth_access_user(row: Option<OauthToken>, now: &str) -> (res: Option<String>)
    ensures
        res == (match row {
            Some(r) => if r.access_token is Some && r.access_expires_at is Some && !seq_lt(
                r.access_expires_at->0@,
                now@,
            ) {
                Some(r.user_id)
            } else {
                None
            },
            None => None,
        }),
{
    match row {
        Some(r) => {
            if r.access_token.is_none() {
                return None;
            }
            match &r.access_expires_at {
                Some(e) => {
                    if str_less(e.as_str(), now) {
                        None
                    } else {
                        Some(r.user_id)
                    }
                },
                None => None,
            }
        },
        None => None,
    }
}

/// Some grant row still holds this authorization code.
pub open spec fn code_held(rows: Seq<OauthToken>, code: Seq<char>) -> bool {
    exists|i: int| 0 <= i < rows.len() && (#[trigger] rows[i]).code is Some && rows[i].code->0@ == code
}

/// Law: an authorization code is good for one exchange. When only row `k`
/// held `code`, then once that row is replaced by its exchanged form no row
/// holds the code, so a second exchange finds it unknown.
pub proof fn lemma_code_single_use(rows: Seq<OauthToken>, k: int, code: Seq<char>, after: OauthToken)
    requires
        0 <= k < rows.len(),
        forall|i: int| 0 <= i < rows.len() && i != k ==> !((#[trigger] rows[i]).code is Some && rows[i].code->0@ == code),
        after.code is None,
    ensures
        !code_held(rows.update(k, after), code),
{
    let r = rows.update(k, after);
    assert forall|i: int| 0 <= i < r.len() implies !((#[trigger] r[i]).code is Some && r[i].code->0@ == code) by {
        if i != k {
            assert(r[i] == rows[i]);
        }
    }
}

/// Some grant row still holds this refresh token.
pub open spec fn refresh_held(rows: Seq<OauthToken>, token: Seq<char>) -> bool {
    exists|i: int| 0 <= i < rows.len() && (#[trigger] rows[i]).refresh_token is Some && rows[i].refresh_token->0@ == token
}

/// Law: a refresh grant rotates the refresh token. When only row `k` held
/// `old`, then once that row is replaced by its refreshed form carrying a
/// different refresh token, no row holds `old`, so presenting it again finds
/// it unknown.
pub proof fn lemma_refresh_rotates(
    rows: Seq<OauthToken>,
    k: int,
    old: Seq<char>,
    access: String,
    access_expires_at: String,
    refresh: String,
    refresh_expires_at: String,
)
    requires
        0 <= k < rows.len(),
        forall|i: int|
            0 <= i < rows.len() && i != k ==> !((#[trigger] rows[i]).refresh_token is Some && rows[i].refresh_token->0@ == old),
        refresh@ != old,
    ensures
        !refresh_held(rows.update(k, refreshed_row(rows[k], access, access_expires_at, refresh, refresh_expires_at)), old),
{
    let after = refreshed_row(rows[k], access, access_expires_at, refresh, refresh_expires_at);
    let r = rows.update(k, after);
    assert forall|i: int| 0 <= i < r.len() implies !((#[trigger] r[i]).refresh_token is Some && r[i].refresh_token->0@ == old) by {
        if i != k {
            assert(r[i] == rows[i]);
        }
    }
}

} // verus!
