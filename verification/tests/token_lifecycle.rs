use semerak::auth::{issue_token, issue_then_verify, issue_then_verify_mismatch, verify_token};
use semerak::auth::{Config, LoginRequest, TokenValidationRequest};
use semerak::codec::{
    decode_with_other_secret, encode_claims, encode_decode_round_trip, handle_decode, is_valid,
    claims_equal, Claims, TokensEncodeHandler,
};
use semerak::errors::ErrorKind;
use semerak::store::{Token, TokenStore};

fn config() -> Config {
    Config {
        admin_username: Some("admin".to_string()),
        admin_password: Some("hunter2".to_string()),
        jwt_secret: Some("a-signing-secret".to_string()),
        jwt_subject: Some("sessions".to_string()),
        token_expiration_hours: Some(2),
    }
}

fn login() -> LoginRequest {
    LoginRequest { username: "admin".to_string(), pw: "hunter2".to_string() }
}

#[test]
fn issue_and_verify_succeeds() {
    let mut store = TokenStore::new();
    let cfg = config();
    let resp = issue_token(&mut store, &cfg, login(), 1000).unwrap();
    assert_eq!(resp.id, 1);
    assert_eq!(resp.expires, 1000 + 2 * 3600);
    assert_eq!(store.len(), 1);
    let req = TokenValidationRequest { id: resp.id, client: resp.content };
    assert!(verify_token(&store, &cfg, &req).is_ok());
}

#[test]
fn issue_then_verify_law_on_concrete_values() {
    let mut store = TokenStore::new();
    let cfg = config();
    assert!(issue_then_verify(&mut store, &cfg, login(), 50).is_ok());
}

#[test]
fn invalid_credentials_rejected_and_no_row_written() {
    let mut store = TokenStore::new();
    let cfg = config();
    let req = LoginRequest { username: "admin".to_string(), pw: "wrong".to_string() };
    assert_eq!(issue_token(&mut store, &cfg, req, 1000), Err(ErrorKind::Unauthorized));
    assert_eq!(store.len(), 0);
    let req = LoginRequest { username: "intruder".to_string(), pw: "hunter2".to_string() };
    assert_eq!(issue_token(&mut store, &cfg, req, 1000), Err(ErrorKind::Unauthorized));
    assert_eq!(store.len(), 0);
}

#[test]
fn missing_configuration_rejected() {
    let mut store = TokenStore::new();
    let mut cfg = config();
    cfg.admin_password = None;
    assert_eq!(issue_token(&mut store, &cfg, login(), 1000), Err(ErrorKind::ConfigurationMissing));
    let mut cfg = config();
    cfg.jwt_secret = None;
    assert_eq!(issue_token(&mut store, &cfg, login(), 1000), Err(ErrorKind::ConfigurationMissing));
    let mut cfg = config();
    cfg.token_expiration_hours = None;
    assert_eq!(issue_token(&mut store, &cfg, login(), 1000), Err(ErrorKind::ConfigurationMissing));
    assert_eq!(store.len(), 0);
}

#[test]
fn verify_without_secret_is_configuration_missing() {
    let mut store = TokenStore::new();
    let cfg = config();
    let resp = issue_token(&mut store, &cfg, login(), 1000).unwrap();
    let mut unconfigured = config();
    unconfigured.jwt_secret = None;
    let req = TokenValidationRequest { id: resp.id, client: resp.content };
    assert_eq!(verify_token(&store, &unconfigured, &req), Err(ErrorKind::ConfigurationMissing));
}

#[test]
fn zero_ttl_token_expires_at_issue_time() {
    let mut store = TokenStore::new();
    let mut cfg = config();
    cfg.token_expiration_hours = Some(0);
    let resp = issue_token(&mut store, &cfg, login(), 5000).unwrap();
    assert_eq!(resp.expires, 5000);
}

#[test]
fn verify_unknown_id_is_not_found() {
    let store = TokenStore::new();
    let cfg = config();
    let req = TokenValidationRequest { id: 7, client: "whatever".to_string() };
    assert_eq!(verify_token(&store, &cfg, &req), Err(ErrorKind::NotFound));
}

#[test]
fn verify_mismatched_claims_is_unauthorized() {
    let mut store = TokenStore::new();
    let cfg = config();
    let resp = issue_token(&mut store, &cfg, login(), 1000).unwrap();
    let other = Claims {
        subject: "sessions".to_string(),
        principal: "admin".to_string(),
        expires_at: 999_999,
    };
    let other_token = encode_claims(&other, Some("a-signing-secret")).unwrap();
    let req = TokenValidationRequest { id: resp.id, client: other_token };
    assert_eq!(verify_token(&store, &cfg, &req), Err(ErrorKind::Unauthorized));
}

#[test]
fn verify_mismatch_law_on_concrete_values() {
    let mut store = TokenStore::new();
    let cfg = config();
    let other = Claims {
        subject: "something-else".to_string(),
        principal: "admin".to_string(),
        expires_at: 1000 + 2 * 3600,
    };
    let out = issue_then_verify_mismatch(&mut store, &cfg, login(), 1000, &other);
    assert_eq!(out, Err(ErrorKind::Unauthorized));
}

#[test]
fn codec_round_trip() {
    let claims = Claims {
        subject: "sessions".to_string(),
        principal: "admin".to_string(),
        expires_at: 123_456_789,
    };
    let decoded = encode_decode_round_trip(&claims, "a-signing-secret").unwrap();
    assert_eq!(decoded.subject, "sessions");
    assert_eq!(decoded.principal, "admin");
    assert_eq!(decoded.expires_at, 123_456_789);
    assert!(claims_equal(&claims, &decoded));
}

#[test]
fn decode_with_wrong_secret_is_invalid_signature() {
    let claims = Claims {
        subject: "sessions".to_string(),
        principal: "admin".to_string(),
        expires_at: 42,
    };
    let out = decode_with_other_secret(&claims, "a-signing-secret", "another-secret");
    assert_eq!(out, Err(ErrorKind::InvalidSignature));
    let token = encode_claims(&claims, Some("a-signing-secret")).unwrap();
    assert_eq!(handle_decode(&token, Some("another-secret")), Err(ErrorKind::InvalidSignature));
}

#[test]
fn expired_claims_still_decode() {
    // Expiry is enforced by deleting the stored row, not by the codec: a
    // token past its logical expiry remains cryptographically valid.
    let claims = Claims {
        subject: "sessions".to_string(),
        principal: "admin".to_string(),
        expires_at: 1,
    };
    let token = encode_claims(&claims, Some("a-signing-secret")).unwrap();
    let decoded = handle_decode(&token, Some("a-signing-secret")).unwrap();
    assert_eq!(decoded.expires_at, 1);
}

#[test]
fn garbage_token_is_rejected() {
    assert!(handle_decode("not-a-token", Some("a-signing-secret")).is_err());
    assert_eq!(handle_decode("x", None), Err(ErrorKind::ConfigurationMissing));
}

#[test]
fn token_pair_comparison() {
    let claims = Claims {
        subject: "sessions".to_string(),
        principal: "admin".to_string(),
        expires_at: 77,
    };
    let token = encode_claims(&claims, Some("a-signing-secret")).unwrap();
    let pair = TokensEncodeHandler { client: token.clone(), server: token };
    assert_eq!(is_valid(&pair, Some("a-signing-secret")), Ok(true));
}

#[test]
fn store_find_and_delete() {
    let mut store = TokenStore::new();
    let id = store
        .insert(Token { content: "blob".to_string(), created_at: 5, expires: 9 })
        .unwrap();
    assert_eq!(id, 1);
    let found = store.find_by_id(id).unwrap();
    assert_eq!(found.content, "blob");
    assert_eq!(found.created_at, 5);
    assert_eq!(found.expires, 9);
    assert!(store.find_by_id(99).is_none());
    assert_eq!(store.delete_by_id(id), 1);
    assert_eq!(store.delete_by_id(id), 0);
    assert_eq!(store.len(), 0);
}

#[test]
fn error_status_codes() {
    assert_eq!(ErrorKind::Unauthorized.status_code(), 401);
    assert_eq!(ErrorKind::NotFound.status_code(), 404);
    assert_eq!(ErrorKind::Malformed.status_code(), 417);
    assert_eq!(ErrorKind::InvalidSignature.status_code(), 401);
    assert_eq!(ErrorKind::ConfigurationMissing.status_code(), 500);
    assert_eq!(ErrorKind::StorageFailure.status_code(), 500);
    assert_eq!(ErrorKind::AsyncTaskFailure.status_code(), 417);
    assert_eq!(ErrorKind::NotFound.message(), "not found");
}
