use cardflow::auth::{
    access_claims, access_token_at, check_totp_at, base64url_encode, totp_params, TotpAlgorithm, claims_of, build_totp, check_totp, cookie_secure, create_access_token,
    generate_refresh_token, generate_totp_secret, hash_password, hash_token, jwt_secret, pkce_verify,
    verify_access_token, verify_password, ACCESS_TOKEN_TTL_SECONDS, REFRESH_TOKEN_TTL_DAYS, TOTP_ISSUER,
};
use cardflow::error::AppError;
use cardflow::models::User;

fn user(totp: Option<String>) -> User {
    User {
        id: "u1".to_string(),
        username: "alice".to_string(),
        password_hash: String::new(),
        totp_secret: totp,
        role: "admin".to_string(),
        created_at: "2024-01-01T00:00:00+00:00".to_string(),
    }
}

fn current_code(secret_base32: &str, username: &str) -> String {
    let bytes = totp_rs::Secret::Encoded(secret_base32.to_string()).to_bytes().unwrap();
    let totp = totp_rs::TOTP::new(
        totp_rs::Algorithm::SHA1,
        6,
        1,
        30,
        bytes,
        Some("CardFlow".to_string()),
        username.to_string(),
    )
    .unwrap();
    totp.generate_current().unwrap()
}

#[test]
fn constants_match_documented_lifetimes() {
    assert_eq!(ACCESS_TOKEN_TTL_SECONDS, 7200);
    assert_eq!(REFRESH_TOKEN_TTL_DAYS, 7);
    assert_eq!(TOTP_ISSUER, "CardFlow");
}

#[test]
fn jwt_secret_setting() {
    let given = jwt_secret(Some("k3y".to_string()), Some("old".to_string()));
    assert_eq!(given.bytes, b"k3y".to_vec());
    assert_eq!(given.generated, None);
    let kept = jwt_secret(None, Some("old".to_string()));
    assert_eq!(kept.bytes, b"old".to_vec());
    assert_eq!(kept.generated, None);
    let blank = jwt_secret(Some(String::new()), Some("old".to_string()));
    assert_eq!(blank.bytes, b"old".to_vec());
}

#[test]
fn jwt_secret_generated_on_first_boot() {
    let first = jwt_secret(None, None);
    let g = first.generated.clone().unwrap();
    assert_eq!(g.len(), 64);
    assert!(g.chars().all(|c| c.is_ascii_hexdigit() && !c.is_ascii_uppercase()));
    assert_eq!(first.bytes, g.as_bytes().to_vec());
    // once kept, a restart uses the same secret
    let again = jwt_secret(None, Some(g.clone()));
    assert_eq!(again.bytes, first.bytes);
    assert_eq!(again.generated, None);
}

#[test]
fn cookie_secure_setting() {
    assert!(cookie_secure(None));
    assert!(cookie_secure(Some("true".to_string())));
    assert!(cookie_secure(Some("no".to_string())));
    assert!(!cookie_secure(Some("false".to_string())));
}

#[test]
fn password_hash_round_trip() {
    let h = hash_password("correct horse").unwrap();
    assert!(h.starts_with("$argon2"));
    assert_eq!(verify_password("correct horse", &h), Ok(true));
    assert_eq!(verify_password("wrong", &h), Ok(false));
}

#[test]
fn password_hashes_are_salted() {
    let a = hash_password("same").unwrap();
    let b = hash_password("same").unwrap();
    assert_ne!(a, b);
}

#[test]
fn verify_password_rejects_unparsable_hash() {
    match verify_password("x", "not a hash") {
        Err(AppError::Internal(m)) => assert!(m.starts_with("stored password hash is invalid: ")),
        other => panic!("unexpected {other:?}"),
    }
}

#[test]
fn access_claims_expire_after_ttl() {
    let c = access_claims(&user(None), 1_000);
    assert_eq!(c.sub, "u1");
    assert_eq!(c.role, "admin");
    assert_eq!(c.iat, 1_000);
    assert_eq!(c.exp, 8_200);
}

#[test]
fn access_token_round_trip() {
    let secret = b"test-secret".to_vec();
    let token = create_access_token(&user(None), &secret).unwrap();
    let claims = verify_access_token(&token, &secret).unwrap();
    assert_eq!(claims.sub, "u1");
    assert_eq!(claims.role, "admin");
    assert_eq!(claims.exp - claims.iat, ACCESS_TOKEN_TTL_SECONDS);
}

#[test]
fn access_token_at_carries_issue_time() {
    let now = std::time::SystemTime::now().duration_since(std::time::UNIX_EPOCH).unwrap().as_secs() as i64;
    let token = access_token_at(&user(None), b"k", now);
    let claims = verify_access_token(&token, b"k").unwrap();
    assert_eq!((claims.iat, claims.exp), (now, now + ACCESS_TOKEN_TTL_SECONDS));
    // the same claims and secret sign to the same token
    assert_eq!(access_token_at(&user(None), b"k", now), token);
    assert_ne!(access_token_at(&user(None), b"k2", now), token);
    // a token issued long ago has expired
    let old = access_token_at(&user(None), b"k", 1_000);
    assert!(verify_access_token(&old, b"k").is_err());
}

#[test]
fn totp_settings_are_rfc_defaults() {
    let p = totp_params();
    assert_eq!(p.algorithm, TotpAlgorithm::Sha1);
    assert_eq!((p.digits, p.skew, p.step), (6, 1, 30));
    assert_eq!(p.issuer, "CardFlow");
}

#[test]
fn access_token_with_other_secret_is_refused() {
    let token = create_access_token(&user(None), b"one").unwrap();
    assert_eq!(
        verify_access_token(&token, b"two"),
        Err(AppError::Unauthorized("invalid or expired access token".to_string()))
    );
    assert!(verify_access_token("garbage", b"one").is_err());
}

#[test]
fn refresh_tokens_are_64_lower_hex() {
    let a = generate_refresh_token();
    let b = generate_refresh_token();
    assert_eq!(a.len(), 64);
    assert!(a.chars().all(|c| c.is_ascii_digit() || ('a'..='f').contains(&c)));
    assert_ne!(a, b);
}

#[test]
fn hash_token_is_sha256_hex() {
    assert_eq!(hash_token("abc"), "ba7816bf8f01cfea414140de5dae2223b00361a396177a9cb410ff61f20015ad");
    assert_eq!(hash_token(""), "e3b0c44298fc1c149afbf4c8996fb92427ae41e4649b934ca495991b7852b855");
}

#[test]
fn base64url_without_padding() {
    assert_eq!(base64url_encode(b""), "");
    assert_eq!(base64url_encode(b"f"), "Zg");
    assert_eq!(base64url_encode(b"fo"), "Zm8");
    assert_eq!(base64url_encode(b"foo"), "Zm9v");
    assert_eq!(base64url_encode(b"hello"), "aGVsbG8");
    assert_eq!(base64url_encode(&[0xfb, 0xff]), "-_8");
}

#[test]
fn pkce_rfc7636_example() {
    assert!(pkce_verify(
        "dBjftJeZ4CVP-mB92K27uhbUJU1p1r_wW1gFWFOEjXk",
        "E9Melhoa2OwvFrEMTJguCHaoeK1t8URWbuGJSstw-cM"
    ));
    assert!(!pkce_verify(
        "dBjftJeZ4CVP-mB92K27uhbUJU1p1r_wW1gFWFOEjXj",
        "E9Melhoa2OwvFrEMTJguCHaoeK1t8URWbuGJSstw-cM"
    ));
    assert!(!pkce_verify("dBjftJeZ4CVP-mB92K27uhbUJU1p1r_wW1gFWFOEjXk", ""));
}

#[test]
fn build_totp_refuses_short_secret_and_colon() {
    assert!(build_totp(vec![7u8; 20], "alice").is_ok());
    assert!(matches!(build_totp(vec![7u8; 10], "alice"), Err(AppError::Internal(_))));
    assert!(matches!(build_totp(vec![7u8; 20], "a:b"), Err(AppError::Internal(_))));
}

#[test]
fn totp_enrolment_round_trip() {
    let (secret, url) = generate_totp_secret("alice").unwrap();
    assert!(url.starts_with("otpauth://totp/"));
    assert!(url.contains("issuer=CardFlow"));
    assert_eq!(secret.len(), 32);
    assert!(url.contains(&format!("secret={secret}")));
    let code = current_code(&secret, "alice");
    assert_eq!(check_totp(&secret, "alice", &code), Ok(true));
    assert_eq!(check_totp(&secret, "alice", "notacode"), Ok(false));
}

#[test]
fn check_totp_at_fixed_times() {
    let (secret, _) = generate_totp_secret("alice").unwrap();
    let bytes = totp_rs::Secret::Encoded(secret.clone()).to_bytes().unwrap();
    let totp =
        totp_rs::TOTP::new(totp_rs::Algorithm::SHA1, 6, 1, 30, bytes, Some("CardFlow".to_string()), "alice".to_string())
            .unwrap();
    let t: u64 = 1_700_000_000;
    let code = totp.generate(t);
    assert_eq!(check_totp_at(&secret, "alice", &code, t), Ok(true));
    // one step later the code is still within the skew, two steps later it is not
    assert_eq!(check_totp_at(&secret, "alice", &code, t + 30), Ok(true));
    assert_eq!(check_totp_at(&secret, "alice", &code, t + 60), Ok(totp.generate(t + 30) == code || totp.generate(t + 60) == code || totp.generate(t + 90) == code));
    assert_eq!(check_totp_at(&secret, "alice", "notacode", t), Ok(false));
    assert!(matches!(check_totp_at(&secret, "alice", &code, 10), Err(AppError::Internal(_))));
    assert!(matches!(check_totp_at(&secret, "a:b", &code, t), Err(AppError::Internal(_))));
    assert!(matches!(check_totp_at("!!!", "alice", &code, t), Err(AppError::BadRequest(_))));
}

#[test]
fn totp_bad_secret_is_bad_request() {
    assert!(matches!(check_totp("!!!not base32!!!", "alice", "123456"), Err(AppError::BadRequest(_))));
    assert!(matches!(generate_totp_secret("a:b"), Err(AppError::Internal(_))));
}

#[test]
fn claims_of_needs_all_four_claims() {
    let full = Some((Some("u1".to_string()), Some("user".to_string()), Some(10), Some(7210)));
    let c = claims_of(full).unwrap();
    assert_eq!((c.sub.as_str(), c.role.as_str(), c.iat, c.exp), ("u1", "user", 10, 7210));
    let refused = Err(AppError::Unauthorized("invalid or expired access token".to_string()));
    assert_eq!(claims_of(None), refused);
    assert_eq!(claims_of(Some((Some("u1".to_string()), None, Some(10), Some(7210)))), refused);
}
