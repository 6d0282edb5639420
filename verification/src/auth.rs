//! Credentials: password hashes, session access tokens (JWT), refresh tokens
//! and their hashes, and TOTP second factors.
use vstd::prelude::*;

use argon2::password_hash::rand_core::OsRng;
use argon2::password_hash::{PasswordHash, PasswordHasher, PasswordVerifier, SaltString};
use argon2::Argon2;
use jsonwebtoken::{decode, encode, DecodingKey, EncodingKey, Header, Validation};
use sha2::{Digest, Sha256};
use totp_rs::{Algorithm, Secret, TOTP};
use uuid::Uuid;

use vstd::string::StringSliceAdditionalSpecFns;

use crate::clock::Instant;
use crate::error::{bad_request, internal, message, unauthorized, AppError};
use crate::models::{Claims, User};
use crate::oauth::present;
use crate::text::{all_lower_hex, concat, hex_lower, to_hex_lower};

verus! {

/// How long a session access token stays valid, in seconds (two hours).
pub const ACCESS_TOKEN_TTL_SECONDS: i64 = 7200;

/// How long a session refresh token stays valid, in days.
pub const REFRESH_TOKEN_TTL_DAYS: i64 = 7;

/// The issuer that TOTP enrolment URLs carry.
pub const TOTP_ISSUER: &'static str = "CardFlow";

/// The signing secret for session tokens, and a freshly generated one that
/// the caller must keep (when there was none to use).
#[derive(Debug, Clone, PartialEq, Eq)]
pub struct JwtSecret {
    pub bytes: Vec<u8>,
    pub generated: Option<String>,
}

/// The signing secret for session tokens: the `JWT_SECRET` setting when it
/// is given (and not blank), else the one kept with the data, else — on
/// first boot — a fresh random one (64 lowercase hex digits), which the
/// caller keeps with the data so that it survives restarts.
pub fn jwt_secret(setting: Option<String>, stored: Option<String>) -> (res: JwtSecret)
    ensures
        present(setting) ==> res.bytes@ == vstd::utf8::encode_utf8(setting->0@) && res.generated is None,
        !present(setting) && stored is Some ==> res.bytes@ == vstd::utf8::encode_utf8(stored->0@)
            && res.generated is None,
        !present(setting) && stored is None ==> (res.generated matches Some(g) && g@.len() == 64
            && all_lower_hex(g@) && res.bytes@ == vstd::utf8::encode_utf8(g@)),
{
    if let Some(s) = &setting {
        if !s.as_str().is_empty() {
            return JwtSecret { bytes: s.as_str().as_bytes_vec(), generated: None };
        }
    }
    match stored {
        Some(t) => JwtSecret { bytes: t.as_str().as_bytes_vec(), generated: None },
        None => {
            let g = generate_refresh_token();
            JwtSecret { bytes: g.as_str().as_bytes_vec(), generated: Some(g) }
        },
    }
}

/// Whether the refresh cookie is marked secure, from the `COOKIE_SECURE`
/// setting: only the value "false" turns it off.
pub fn cookie_secure(setting: Option<String>) -> (res: bool)
    ensures
        res == (setting is None || setting->0@ != "false"@),
{
    match setting {
        Some(v) => !crate::text::str_eq(v.as_str(), "false"),
        None => true,
    }
}

// ---------------------------------------------------------------- passwords

/// The PHC-format text `hash` parses as a password hash (argon2's `PasswordHash::new`).
pub uninterp spec fn phc_parses(hash: Seq<char>) -> bool;

/// Argon2 verification of `password` against the parsed `hash` succeeds
/// (`Argon2::verify_password`).
pub uninterp spec fn argon2_matches(password: Seq<char>, hash: Seq<char>) -> bool;

/// Hashes `password` with argon2's default parameters and a fresh random salt
/// (`SaltString::generate` and `Argon2::hash_password`), as PHC text. The salt
/// is random, so the text is not named; the contract states what argon2's
/// verifier recomputes from it: the text parses, and `password` verifies
/// against it. Hashing fails only for a password longer than
/// `argon2::MAX_PWD_LEN` (`0xFFFFFFFF`) bytes. The PHC text begins with its
/// `$` separator (as in `$argon2id$v=19$...`). The error is argon2's message.
#[verifier::external_body]
fn argon2_hash(password: &str) -> (res: Result<String, String>)
    ensures
        vstd::utf8::encode_utf8(password@).len() <= 0xFFFF_FFFF ==> res is Ok,
        res matches Ok(h) ==> phc_parses(h@) && argon2_matches(password@, h@),
        res matches Ok(h) ==> h@.len() > 0 && h@[0] == '$',
{
    let salt = SaltString::generate(&mut OsRng);
    Argon2::default().hash_password(password.as_bytes(), &salt).map(|h| h.to_string()).map_err(|e| e.to_string())
}

/// Parses `hash` (`PasswordHash::new`) and verifies `password` against it
/// (`Argon2::verify_password`): `Err` with argon2's message when the text does
/// not parse, else whether the password matches.
#[verifier::external_body]
fn argon2_verify(password: &str, hash: &str) -> (res: Result<bool, String>)
    ensures
        res is Ok <==> phc_parses(hash@),
        res matches Ok(b) ==> b == argon2_matches(password@, hash@),
{
    let parsed = PasswordHash::new(hash).map_err(|e| e.to_string())?;
    Ok(Argon2::default().verify_password(password.as_bytes(), &parsed).is_ok())
}

/// Hashes a password for storage.
pub fn hash_password(password: &str) -> (res: Result<String, AppError>)
    ensures
        vstd::utf8::encode_utf8(password@).len() <= 0xFFFF_FFFF ==> res is Ok,
        res matches Ok(h) ==> phc_parses(h@) && argon2_matches(password@, h@),
        res matches Ok(h) ==> h@.len() > 0 && h@[0] == '$',
        res matches Ok(h) ==> (password@.len() == 0 || password@[0] != '$' ==> h@ != password@),
        res is Err ==> internal(res),
{
    match argon2_hash(password) {
        Ok(h) => Ok(h),
        Err(e) => Err(AppError::Internal(concat("failed to hash password: ", e.as_str()))),
    }
}

/// What checking `password` against the stored `hash` answers: whether it
/// matches, or nothing when the hash does not parse.
pub open spec fn password_verdict(password: Seq<char>, hash: Seq<char>) -> Option<bool> {
    if phc_parses(hash) {
        Some(argon2_matches(password, hash))
    } else {
        None
    }
}

/// Law: a stored hash verifies the password it was made from — whatever
/// `hash_password` returns for `password`, checking `password` against it
/// answers "matches".
pub proof fn lemma_password_round_trip(password: Seq<char>, hash: Seq<char>)
    requires
        phc_parses(hash) && argon2_matches(password, hash),
    ensures
        password_verdict(password, hash) == Some(true),
{
}

/// Checks a password against a stored hash; a stored hash that does not parse
/// is a server fault.
pub fn verify_password(password: &str, hash: &str) -> (res: Result<bool, AppError>)
    ensures
        res is Ok <==> password_verdict(password@, hash@) is Some,
        res matches Ok(b) ==> Some(b) == password_verdict(password@, hash@),
        res is Err ==> internal(res),
{
    match argon2_verify(password, hash) {
        Ok(b) => Ok(b),
        Err(e) => Err(AppError::Internal(concat("stored password hash is invalid: ", e.as_str()))),
    }
}

// ------------------------------------------------------------ access tokens

/// The HS256 JWT (`jsonwebtoken::encode` with the default header) whose
/// claims object holds `sub`, `role`, `iat` and `exp`, signed with `secret`.
pub uninterp spec fn jwt_hs256(sub: Seq<char>, role: Seq<char>, iat: int, exp: int, secret: Seq<u8>) -> Seq<char>;

/// The claims that `jsonwebtoken::decode` with the default validation reads
/// out of `token` under `secret` — `sub`, `role` (as strings), `iat`, `exp`
/// (as integers), each when present — setting aside its check of `exp`
/// against the clock; `None` when it refuses the token for any other reason
/// (signature, algorithm, form, a missing `exp`).
pub uninterp spec fn jwt_claims(token: Seq<char>, secret: Seq<u8>) -> Option<
    (Option<Seq<char>>, Option<Seq<char>>, Option<int>, Option<int>),
>;

/// Signs the claims as an HS256 JWT (`jsonwebtoken::encode`); the claims go
/// in as a JSON object. HMAC signing of a JSON object does not fail. The
/// decoder reads the same claims back under the same secret when `exp` is
/// not negative (it reads `exp` as an unsigned number, and refuses a token
/// without one).
#[verifier::external_body]
fn jwt_encode(sub: &str, role: &str, iat: i64, exp: i64, secret: &[u8]) -> (res: Result<String, String>)
    ensures
        res is Ok,
        res matches Ok(t) ==> t@ == jwt_hs256(sub@, role@, iat as int, exp as int, secret@),
        res matches Ok(t) ==> exp >= 0 ==> jwt_claims(t@, secret@) == Some(
            (Some(sub@), Some(role@), Some(iat as int), Some(exp as int)),
        ),
{
    let mut claims = serde_json::Map::new();
    claims.insert("sub".to_string(), serde_json::Value::from(sub));
    claims.insert("role".to_string(), serde_json::Value::from(role));
    claims.insert("iat".to_string(), serde_json::Value::from(iat));
    claims.insert("exp".to_string(), serde_json::Value::from(exp));
    encode(&Header::default(), &claims, &EncodingKey::from_secret(secret)).map_err(|e| e.to_string())
}

/// Checks an HS256 JWT (`jsonwebtoken::decode` with the default validation)
/// and reads the four claims out of it; `None` when the token is refused.
/// What it reads is `jwt_claims`; whether an `exp` in the past refuses it
/// depends on the clock, so a token with claims may still come back `None`.
#[verifier::external_body]
fn jwt_decode(token: &str, secret: &[u8]) -> (res: Option<(Option<String>, Option<String>, Option<i64>, Option<i64>)>)
    ensures
        jwt_claims(token@, secret@) is None ==> res is None,
        res matches Some(d) ==> jwt_claims(token@, secret@) == Some(decoded_view(d)),
{
    let data = decode::<serde_json::Value>(token, &DecodingKey::from_secret(secret), &Validation::default()).ok()?;
    let c = data.claims;
    Some((
        c.get("sub").and_then(|v| v.as_str()).map(|s| s.to_string()),
        c.get("role").and_then(|v| v.as_str()).map(|s| s.to_string()),
        c.get("iat").and_then(|v| v.as_i64()),
        c.get("exp").and_then(|v| v.as_i64()),
    ))
}

/// The claims of a session token for `user`, issued at `now`.
pub fn access_claims(user: &User, now: i64) -> (res: Claims)
    requires
        now + ACCESS_TOKEN_TTL_SECONDS <= i64::MAX,
    ensures
        res.sub@ == user.id@,
        res.role@ == user.role@,
        res.iat == now,
        res.exp == now + ACCESS_TOKEN_TTL_SECONDS,
{
    Claims { sub: user.id.clone(), role: user.role.clone(), iat: now, exp: now + ACCESS_TOKEN_TTL_SECONDS }
}

/// The plain values of what the decoder read.
pub open spec fn decoded_view(d: (Option<String>, Option<String>, Option<i64>, Option<i64>)) -> (
    Option<Seq<char>>,
    Option<Seq<char>>,
    Option<int>,
    Option<int>,
) {
    (
        match d.0 {
            Some(s) => Some(s@),
            None => None,
        },
        match d.1 {
            Some(s) => Some(s@),
            None => None,
        },
        match d.2 {
            Some(i) => Some(i as int),
            None => None,
        },
        match d.3 {
            Some(i) => Some(i as int),
            None => None,
        },
    )
}

/// A session access token for `user` issued at `now` (seconds since the
/// epoch), valid for `ACCESS_TOKEN_TTL_SECONDS`.
pub fn access_token_at(user: &User, secret: &[u8], now: i64) -> (res: String)
    requires
        now + ACCESS_TOKEN_TTL_SECONDS <= i64::MAX,
    ensures
        res@ == jwt_hs256(user.id@, user.role@, now as int, now + ACCESS_TOKEN_TTL_SECONDS, secret@),
        now + ACCESS_TOKEN_TTL_SECONDS >= 0 ==> jwt_claims(res@, secret@) == Some(
            (Some(user.id@), Some(user.role@), Some(now as int), Some(now + ACCESS_TOKEN_TTL_SECONDS)),
        ),
{
    let claims = access_claims(user, now);
    match jwt_encode(claims.sub.as_str(), claims.role.as_str(), claims.iat, claims.exp, secret) {
        Ok(t) => t,
        Err(_) => String::new(),
    }
}

/// Issues a session access token for `user`, valid for
/// `ACCESS_TOKEN_TTL_SECONDS` from now (as the clock reads).
pub fn create_access_token(user: &User, secret: &[u8]) -> (res: Result<String, AppError>)
    ensures
        res is Ok,
        res matches Ok(t) ==> exists|iat: int|
            #[trigger] jwt_hs256(user.id@, user.role@, iat, iat + ACCESS_TOKEN_TTL_SECONDS, secret@) == t@ && (iat
                + ACCESS_TOKEN_TTL_SECONDS >= 0 ==> jwt_claims(t@, secret@) == Some(
                (Some(user.id@), Some(user.role@), Some(iat), Some(iat + ACCESS_TOKEN_TTL_SECONDS)),
            )),
{
    let now = crate::clock::now().secs;
    Ok(access_token_at(user, secret, now))
}

/// The claims of a checked token, from what the decoder read out of it (the
/// four claims, each when present and of the right type, or nothing for a
/// refused token): all four must be there, else the token is refused.
pub fn claims_of(decoded: Option<(Option<String>, Option<String>, Option<i64>, Option<i64>)>) -> (res: Result<
    Claims,
    AppError,
>)
    ensures
        match decoded {
            Some((Some(sub), Some(role), Some(iat), Some(exp))) => res == Ok::<Claims, AppError>(
                Claims { sub, role, iat, exp },
            ),
            _ => unauthorized(res, "invalid or expired access token"@),
        },
{
    match decoded {
        Some((Some(sub), Some(role), Some(iat), Some(exp))) => Ok(Claims { sub, role, iat, exp }),
        _ => Err(AppError::Unauthorized(String::from_str("invalid or expired access token"))),
    }
}

/// Checks a session access token and gives its claims; any refusal (bad
/// signature, expired, malformed, missing claim) is one `Unauthorized`. What
/// the decoder reads depends on the clock; `claims_of` says what each
/// reading gives.
pub fn verify_access_token(token: &str, secret: &[u8]) -> (res: Result<Claims, AppError>)
    ensures
        res is Err ==> unauthorized(res, "invalid or expired access token"@),
        res matches Ok(c) ==> jwt_claims(token@, secret@) == Some(
            (Some(c.sub@), Some(c.role@), Some(c.iat as int), Some(c.exp as int)),
        ),
        !(jwt_claims(token@, secret@) matches Some((Some(_), Some(_), Some(_), Some(_)))) ==> res is Err,
{
    claims_of(jwt_decode(token, secret))
}

// ----------------------------------------------------------- opaque tokens

/// A fresh random version-4 UUID in its simple form (`Uuid::new_v4().simple()`):
/// 32 lowercase hexadecimal digits.
#[verifier::external_body]
fn uuid_simple() -> (res: String)
    ensures
        res@.len() == 32,
        all_lower_hex(res@),
{
    Uuid::new_v4().simple().to_string()
}

/// A fresh random opaque token: two random UUIDs, 64 lowercase hexadecimal digits.
pub fn generate_refresh_token() -> (res: String)
    ensures
        res@.len() == 64,
        all_lower_hex(res@),
{
    let a = uuid_simple();
    let b = uuid_simple();
    let res = concat(a.as_str(), b.as_str());
    assert(forall|i: int| 0 <= i < 32 ==> res@[i] == a@[i]);
    assert(forall|i: int| 32 <= i < 64 ==> res@[i] == b@[i - 32]);
    res
}

/// The SHA-256 digest of `data` (`sha2::Sha256::digest`).
pub uninterp spec fn sha256(data: Seq<u8>) -> Seq<u8>;

/// SHA-256 of `data` (`sha2::Sha256::digest`); the digest has 32 bytes.
#[verifier::external_body]
fn sha256_digest(data: &[u8]) -> (res: Vec<u8>)
    ensures
        res@ == sha256(data@),
        res@.len() == 32,
{
    Sha256::digest(data).to_vec()
}

/// The stored form of a refresh token: its SHA-256 digest in lowercase hex.
pub fn hash_token(token: &str) -> (res: String)
    ensures
        res@ == hex_lower(sha256(token.spec_bytes())),
        res@.len() == 64,
{
    let digest = sha256_digest(token.as_bytes());
    to_hex_lower(digest.as_slice())
}

// ------------------------------------------------------------------- TOTP

#[verifier::external_type_specification]
#[verifier::external_body]
pub struct ExTotp(TOTP);

/// 20 random bytes for a new TOTP secret (`Secret::generate_secret().to_bytes()`:
/// the generated secret is raw bytes, whose `to_bytes` always succeeds).
#[verifier::external_body]
fn random_totp_secret() -> (res: Result<Vec<u8>, String>)
    ensures
        res is Ok,
        res matches Ok(b) ==> b@.len() == 20,
{
    Secret::generate_secret().to_bytes().map_err(|e| e.to_string())
}

/// The bytes of an unpadded RFC 4648 base32 text (`Secret::Encoded(..).to_bytes()`),
/// `None` when it does not decode.
pub uninterp spec fn base32_bytes(text: Seq<char>) -> Option<Seq<u8>>;

/// Decodes a base32 TOTP secret (`Secret::Encoded(..).to_bytes()`); the error
/// is totp-rs's message.
#[verifier::external_body]
fn decode_totp_secret(text: &str) -> (res: Result<Vec<u8>, String>)
    ensures
        res is Ok <==> base32_bytes(text@) is Some,
        res matches Ok(b) ==> Some(b@) == base32_bytes(text@),
{
    Secret::Encoded(text.to_string()).to_bytes().map_err(|e| e.to_string())
}

/// The HMAC algorithm of TOTP codes.
#[derive(Debug, Clone, Copy, PartialEq, Eq)]
pub enum TotpAlgorithm {
    Sha1,
    Sha256,
    Sha512,
}

/// How TOTP codes are made and checked, and the issuer that enrolment URLs name.
#[derive(Debug, Clone, PartialEq, Eq)]
pub struct TotpParams {
    pub algorithm: TotpAlgorithm,
    pub digits: usize,
    pub skew: u8,
    pub step: u64,
    pub issuer: String,
}

/// The service's TOTP settings (RFC 6238 defaults): SHA-1, 6 digits, codes
/// of one step before or after accepted, 30-second steps, issuer "CardFlow".
pub fn totp_params() -> (res: TotpParams)
    ensures
        res.algorithm == TotpAlgorithm::Sha1,
        res.digits == 6,
        res.skew == 1,
        res.step == 30,
        res.issuer@ == TOTP_ISSUER@,
{
    TotpParams { algorithm: TotpAlgorithm::Sha1, digits: 6, skew: 1, step: 30, issuer: String::from_str(TOTP_ISSUER) }
}

/// The unpadded RFC 4648 base32 text of `secret` (`base32::encode`, as
/// `TOTP::get_secret_base32` and `Secret::to_encoded` give it).
pub uninterp spec fn base32_text(secret: Seq<u8>) -> Seq<char>;

/// The code that `TOTP::generate` makes with this algorithm, number of
/// digits and secret at any time whose step count (`time / step`) is
/// `counter`: the HOTP value of the counter.
pub uninterp spec fn totp_code(algorithm: TotpAlgorithm, digits: int, secret: Seq<u8>, counter: int) -> Seq<char>;

/// The otpauth:// enrolment URL that `TOTP::get_url` gives for these
/// settings, secret and account name.
pub uninterp spec fn totp_url_of(
    algorithm: TotpAlgorithm,
    digits: int,
    step: int,
    issuer: Seq<char>,
    secret: Seq<u8>,
    account: Seq<char>,
) -> Seq<char>;

/// `TOTP::new` with the given settings: it refuses fewer than 6 or more than
/// 8 digits, a secret shorter than 16 bytes, and an issuer or account name
/// holding ':'. The error is totp-rs's message.
#[verifier::external_body]
fn totp_new(params: &TotpParams, secret: Vec<u8>, account: &str) -> (res: Result<TOTP, String>)
    ensures
        res is Ok <==> (6 <= params.digits <= 8 && secret@.len() >= 16 && !params.issuer@.contains(':')
            && !account@.contains(':')),
{
    let algorithm = match params.algorithm {
        TotpAlgorithm::Sha1 => Algorithm::SHA1,
        TotpAlgorithm::Sha256 => Algorithm::SHA256,
        TotpAlgorithm::Sha512 => Algorithm::SHA512,
    };
    TOTP::new(algorithm, params.digits, params.skew, params.step, secret, Some(params.issuer.clone()), account.to_string())
        .map_err(|e| e.to_string())
}

/// The base32 text of a secret (`Secret::Raw(..).to_encoded()`, printed); it
/// decodes back to the secret.
#[verifier::external_body]
fn totp_secret_text(secret: &[u8]) -> (res: String)
    ensures
        res@ == base32_text(secret@),
        base32_bytes(res@) == Some(secret@),
{
    Secret::Raw(secret.to_vec()).to_encoded().to_string()
}

/// The otpauth:// enrolment URL (`TOTP::get_url`) of a TOTP with these
/// settings, secret and account name.
#[verifier::external_body]
fn totp_url(params: &TotpParams, secret: &[u8], account: &str) -> (res: String)
    ensures
        res@ == totp_url_of(params.algorithm, params.digits as int, params.step as int, params.issuer@, secret@, account@),
{
    let algorithm = match params.algorithm {
        TotpAlgorithm::Sha1 => Algorithm::SHA1,
        TotpAlgorithm::Sha256 => Algorithm::SHA256,
        TotpAlgorithm::Sha512 => Algorithm::SHA512,
    };
    TOTP::new_unchecked(algorithm, params.digits, params.skew, params.step, secret.to_vec(), Some(params.issuer.clone()), account.to_string())
        .get_url()
}

/// `code` is accepted at `time` (seconds since the epoch) with these
/// settings: it is the code of the step count of `time`, or of one of the
/// `skew` counts before or after it.
pub open spec fn totp_accepts(
    algorithm: TotpAlgorithm,
    digits: int,
    step: int,
    skew: int,
    secret: Seq<u8>,
    code: Seq<char>,
    time: int,
) -> bool {
    exists|i: int| 0 <= i <= 2 * skew && #[trigger] totp_code(algorithm, digits, secret, time / step - skew + i) == code
}

/// `TOTP::check` at `time`: whether `code` is the code of one of the step
/// counts from `time / step - skew` to `time / step + skew` (compared with
/// `constant_time_eq`, which is byte equality). The bounds keep its
/// arithmetic in range: `10^digits` fits in a `u32`, the lowest count is not
/// below zero, and no step time overflows.
#[verifier::external_body]
fn totp_check_at(params: &TotpParams, secret: &[u8], account: &str, code: &str, time: u64) -> (res: bool)
    requires
        1 <= params.digits <= 9,
        0 < params.step <= 1_000_000_000,
        params.skew as int * params.step as int <= time,
        time <= 10_000_000_000_000,
    ensures
        res == (exists|i: int|
            0 <= i <= 2 * params.skew && #[trigger] totp_code(
                params.algorithm,
                params.digits as int,
                secret@,
                time as int / params.step as int - params.skew as int + i,
            ) == code@),
{
    let algorithm = match params.algorithm {
        TotpAlgorithm::Sha1 => Algorithm::SHA1,
        TotpAlgorithm::Sha256 => Algorithm::SHA256,
        TotpAlgorithm::Sha512 => Algorithm::SHA512,
    };
    TOTP::new_unchecked(algorithm, params.digits, params.skew, params.step, secret.to_vec(), Some(params.issuer.clone()), account.to_string())
        .check(code, time)
}

/// `code` is a code of the service's settings for `secret` at some step count.
pub open spec fn code_of(secret: Seq<u8>, code: Seq<char>) -> bool {
    exists|c: int| 0 <= c && #[trigger] totp_code(TotpAlgorithm::Sha1, 6, secret, c) == code
}

/// The times (seconds since the epoch) at which codes are checked: from one
/// step after the epoch, so that the step before is not before it, up to
/// 10^13.
pub open spec fn checkable_time(time: int) -> bool {
    30 <= time <= 10_000_000_000_000
}

/// Law: at any checkable time, the codes of the current step and of one step
/// before and after it are accepted with the service's settings (one step of
/// skew each way), and every accepted code is the code of one of those three
/// steps.
pub proof fn lemma_totp_round_trip(secret: Seq<u8>, time: int)
    requires
        checkable_time(time),
    ensures
        totp_accepts(TotpAlgorithm::Sha1, 6, 30, 1, secret, totp_code(TotpAlgorithm::Sha1, 6, secret, time / 30), time),
        totp_accepts(TotpAlgorithm::Sha1, 6, 30, 1, secret, totp_code(TotpAlgorithm::Sha1, 6, secret, time / 30 - 1), time),
        totp_accepts(TotpAlgorithm::Sha1, 6, 30, 1, secret, totp_code(TotpAlgorithm::Sha1, 6, secret, time / 30 + 1), time),
        forall|code: Seq<char>|
            totp_accepts(TotpAlgorithm::Sha1, 6, 30, 1, secret, code, time) ==> code == totp_code(
                TotpAlgorithm::Sha1,
                6,
                secret,
                time / 30 - 1,
            ) || code == totp_code(TotpAlgorithm::Sha1, 6, secret, time / 30) || code == totp_code(
                TotpAlgorithm::Sha1,
                6,
                secret,
                time / 30 + 1,
            ),
{
    assert(time / 30 - 1 + 1 == time / 30);
    assert(time / 30 - 1 + 0 == time / 30 - 1);
    assert(time / 30 - 1 + 2 == time / 30 + 1);
    assert forall|code: Seq<char>| totp_accepts(TotpAlgorithm::Sha1, 6, 30, 1, secret, code, time) implies code
        == totp_code(TotpAlgorithm::Sha1, 6, secret, time / 30 - 1) || code == totp_code(
        TotpAlgorithm::Sha1,
        6,
        secret,
        time / 30,
    ) || code == totp_code(TotpAlgorithm::Sha1, 6, secret, time / 30 + 1) by {
        let i = choose|i: int| 0 <= i <= 2 * 1 && #[trigger] totp_code(TotpAlgorithm::Sha1, 6, secret, time / 30 - 1 + i) == code;
        assert(i == 0 || i == 1 || i == 2);
    }
}

/// Builds the TOTP checker for a secret and a user name, with the service's settings.
pub fn build_totp(secret_bytes: Vec<u8>, username: &str) -> (res: Result<TOTP, AppError>)
    ensures
        res is Ok <==> (secret_bytes@.len() >= 16 && !username@.contains(':')),
        res is Err ==> internal(res),
{
    let params = totp_params();
    proof {
        reveal_strlit("CardFlow");
    }
    match totp_new(&params, secret_bytes, username) {
        Ok(t) => Ok(t),
        Err(e) => Err(AppError::Internal(concat("failed to build totp: ", e.as_str()))),
    }
}

/// Generates a fresh, unpersisted TOTP secret for enrollment: its base32 text
/// and the otpauth URL. The caller must echo the returned secret back via
/// `check_totp` since nothing is stored until the code is confirmed.
pub fn generate_totp_secret(username: &str) -> (res: Result<(String, String), AppError>)
    ensures
        res is Ok <==> !username@.contains(':'),
        res is Err ==> internal(res),
        res matches Ok((text, url)) ==> exists|b: Seq<u8>| {
            &&& b.len() == 20
            &&& text@ == base32_text(b) && #[trigger] base32_bytes(text@) == Some(b)
            &&& url@ == totp_url_of(TotpAlgorithm::Sha1, 6, 30, TOTP_ISSUER@, b, username@)
        },
{
    let bytes = match random_totp_secret() {
        Ok(b) => b,
        Err(e) => return Err(AppError::Internal(concat("failed to generate totp secret: ", e.as_str()))),
    };
    let params = totp_params();
    let text = totp_secret_text(bytes.as_slice());
    let url = totp_url(&params, bytes.as_slice(), username);
    match build_totp(bytes, username) {
        Ok(_) => {},
        Err(e) => return Err(e),
    }
    Ok((text, url))
}

/// Checks a TOTP code against a base32 secret at `time` (seconds since the
/// epoch): a secret that does not decode is the caller's fault, a too-short
/// secret, a name holding ':' or a time outside `checkable_time` the
/// server's; otherwise the answer is whether the service's settings accept
/// the code at that time.
pub fn check_totp_at(secret_base32: &str, username: &str, code: &str, time: u64) -> (res: Result<bool, AppError>)
    ensures
        base32_bytes(secret_base32@) is None ==> res is Err && res->Err_0 is BadRequest,
        base32_bytes(secret_base32@) matches Some(b) && (b.len() < 16 || username@.contains(':')) ==> internal(res),
        base32_bytes(secret_base32@) matches Some(b) && b.len() >= 16 && !username@.contains(':') && !checkable_time(
            time as int,
        ) ==> internal(res),
        base32_bytes(secret_base32@) is Some && base32_bytes(secret_base32@)->0.len() >= 16 && !username@.contains(':')
            && checkable_time(time as int) ==> res == Ok::<bool, AppError>(
            totp_accepts(TotpAlgorithm::Sha1, 6, 30, 1, base32_bytes(secret_base32@)->0, code@, time as int),
        ),
{
    let bytes = match decode_totp_secret(secret_base32) {
        Ok(b) => b,
        Err(e) => return Err(AppError::BadRequest(concat("invalid totp secret: ", e.as_str()))),
    };
    let params = totp_params();
    match build_totp(bytes.clone(), username) {
        Ok(_) => {},
        Err(e) => return Err(e),
    }
    if time < 30 || time > 10_000_000_000_000 {
        return Err(AppError::Internal(String::from_str("failed to check totp code: the clock is out of range")));
    }
    Ok(totp_check_at(&params, bytes.as_slice(), username, code, time))
}

/// Checks a TOTP code against a base32 secret at the instant `now`: the
/// check of `check_totp_at` at its whole seconds (an instant before the
/// epoch is out of range).
pub fn check_totp_now(secret_base32: &str, username: &str, code: &str, now: &Instant) -> (res: Result<bool, AppError>)
    ensures
        base32_bytes(secret_base32@) is None ==> res is Err && res->Err_0 is BadRequest,
        base32_bytes(secret_base32@) matches Some(b) && (b.len() < 16 || username@.contains(':')) ==> internal(res),
        base32_bytes(secret_base32@) matches Some(b) && b.len() >= 16 && !username@.contains(':') && !checkable_time(
            now.secs as int,
        ) ==> internal(res),
        base32_bytes(secret_base32@) is Some && base32_bytes(secret_base32@)->0.len() >= 16 && !username@.contains(':')
            && checkable_time(now.secs as int) ==> res == Ok::<bool, AppError>(
            totp_accepts(TotpAlgorithm::Sha1, 6, 30, 1, base32_bytes(secret_base32@)->0, code@, now.secs as int),
        ),
{
    let time: u64 = if now.secs < 0 {
        0
    } else {
        now.secs as u64
    };
    check_totp_at(secret_base32, username, code, time)
}

/// Checks a TOTP code against a base32 secret at the current time, as the
/// clock reads it (see `check_totp_now`); only a code of the secret is ever
/// accepted.
pub fn check_totp(secret_base32: &str, username: &str, code: &str) -> (res: Result<bool, AppError>)
    ensures
        base32_bytes(secret_base32@) is None ==> res is Err && res->Err_0 is BadRequest,
        base32_bytes(secret_base32@) matches Some(b) && (b.len() < 16 || username@.contains(':')) ==> internal(res),
        res is Err && base32_bytes(secret_base32@) is Some ==> internal(res),
        res matches Ok(v) ==> exists|t: int|
            checkable_time(t) && v == #[trigger] totp_accepts(
                TotpAlgorithm::Sha1,
                6,
                30,
                1,
                base32_bytes(secret_base32@)->0,
                code@,
                t,
            ),
        res == Ok::<bool, AppError>(true) ==> code_of(base32_bytes(secret_base32@)->0, code@),
{
    let now = crate::clock::now();
    let res = check_totp_now(secret_base32, username, code, &now);
    proof {
        if res == Ok::<bool, AppError>(true) {
            let b = base32_bytes(secret_base32@)->0;
            let i = choose|i: int| 0 <= i <= 2 && #[trigger] totp_code(TotpAlgorithm::Sha1, 6, b, now.secs as int / 30 - 1 + i) == code@;
            assert(totp_code(TotpAlgorithm::Sha1, 6, b, now.secs as int / 30 - 1 + i) == code@);
        }
    }
    res
}

// ------------------------------------------------------------------- PKCE

/// The unpadded base64url alphabet.
pub open spec fn b64url_char(v: int) -> char {
    if v < 26 {
        (65 + v) as char
    } else if v < 52 {
        (71 + v) as char
    } else if v < 62 {
        (v - 4) as char
    } else if v == 62 {
        '-'
    } else {
        '_'
    }
}

/// Unpadded base64url text of `b` (RFC 4648 §5): each group of three bytes
/// becomes four characters, a final group of one or two bytes two or three.
pub open spec fn b64url(b: Seq<u8>) -> Seq<char>
    decreases b.len(),
{
    if b.len() == 0 {
        Seq::empty()
    } else if b.len() == 1 {
        seq![b64url_char((b[0] as int) / 4), b64url_char(((b[0] as int) % 4) * 16)]
    } else if b.len() == 2 {
        seq![b64url_char((b[0] as int) / 4), b64url_char(((b[0] as int) % 4) * 16 + (b[1] as int) / 16), b64url_char(((b[1] as int) % 16) * 4)]
    } else {
        seq![
            b64url_char((b[0] as int) / 4),
            b64url_char(((b[0] as int) % 4) * 16 + (b[1] as int) / 16),
            b64url_char(((b[1] as int) % 16) * 4 + (b[2] as int) / 64),
            b64url_char((b[2] as int) % 64),
        ] + b64url(b.skip(3))
    }
}

fn b64url_digit(v: u32) -> (res: char)
    requires
        v < 64,
    ensures
        res == b64url_char(v as int),
{
    if v < 26 {
        ((65 + v) as u8) as char
    } else if v < 52 {
        ((71 + v) as u8) as char
    } else if v < 62 {
        ((v - 4) as u8) as char
    } else if v == 62 {
        '-'
    } else {
        '_'
    }
}

proof fn lemma_b64url_skip(b: Seq<u8>, i: int)
    requires
        0 <= i,
        i % 3 == 0,
        i + 3 <= b.len(),
    ensures
        b64url(b.skip(i)) == seq![
            b64url_char((b[i] as int) / 4),
            b64url_char(((b[i] as int) % 4) * 16 + (b[i + 1] as int) / 16),
            b64url_char(((b[i + 1] as int) % 16) * 4 + (b[i + 2] as int) / 64),
            b64url_char((b[i + 2] as int) % 64),
        ] + b64url(b.skip(i + 3)),
{
    assert(b.skip(i).skip(3) =~= b.skip(i + 3));
}

/// Unpadded base64url text of `bytes`.
pub fn base64url_encode(bytes: &[u8]) -> (res: String)
    ensures
        res@ == b64url(bytes@),
{
    let mut res = String::new();
    let n = bytes.len();
    let mut i: usize = 0;
    assert(bytes@.skip(0) =~= bytes@);
    while n - i >= 3
        invariant
            n == bytes@.len(),
            i <= n,
            i % 3 == 0,
            res@ + b64url(bytes@.skip(i as int)) == b64url(bytes@),
        decreases n - i,
    {
        let b0 = bytes[i] as u32;
        let b1 = bytes[i + 1] as u32;
        let b2 = bytes[i + 2] as u32;
        proof {
            lemma_b64url_skip(bytes@, i as int);
        }
        let ghost before = res@;
        crate::text::string_push(&mut res, b64url_digit(b0 / 4));
        crate::text::string_push(&mut res, b64url_digit((b0 % 4) * 16 + b1 / 16));
        crate::text::string_push(&mut res, b64url_digit((b1 % 16) * 4 + b2 / 64));
        crate::text::string_push(&mut res, b64url_digit(b2 % 64));
        assert(res@ + b64url(bytes@.skip(i + 3)) =~= before + b64url(bytes@.skip(i as int)));
        i = i + 3;
    }
    let rest = n - i;
    let ghost before = res@;
    let ghost tail = bytes@.skip(i as int);
    if rest == 1 {
        let b0 = bytes[i] as u32;
        crate::text::string_push(&mut res, b64url_digit(b0 / 4));
        crate::text::string_push(&mut res, b64url_digit((b0 % 4) * 16));
        assert(tail.len() == 1 && tail[0] == bytes@[i as int]);
        assert(res@ =~= before + b64url(tail));
    } else if rest == 2 {
        let b0 = bytes[i] as u32;
        let b1 = bytes[i + 1] as u32;
        crate::text::string_push(&mut res, b64url_digit(b0 / 4));
        crate::text::string_push(&mut res, b64url_digit((b0 % 4) * 16 + b1 / 16));
        crate::text::string_push(&mut res, b64url_digit((b1 % 16) * 4));
        assert(tail.len() == 2 && tail[0] == bytes@[i as int] && tail[1] == bytes@[i + 1]);
        assert(res@ =~= before + b64url(tail));
    } else {
        assert(tail.len() == 0);
        assert(res@ =~= before + b64url(tail));
    }
    res
}

/// PKCE with the S256 method (RFC 7636 §4.6): the challenge must be the
/// unpadded base64url text of the SHA-256 digest of the verifier.
pub fn pkce_verify(code_verifier: &str, code_challenge: &str) -> (res: bool)
    ensures
        res == (b64url(sha256(code_verifier.spec_bytes())) == code_challenge@),
{
    let digest = sha256_digest(code_verifier.as_bytes());
    let encoded = base64url_encode(digest.as_slice());
    crate::text::constant_time_eq(encoded.as_str(), code_challenge)
}

} // verus!
