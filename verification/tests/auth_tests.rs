use poll_backend::auth::{create_jwt, login, register, CredStore, User, TOKEN_LIFETIME_SECS};
use poll_backend::errors::ApiError;

use jsonwebtoken::{decode, Algorithm, DecodingKey, Validation};

const SECRET: &[u8] = b"test-signing-secret";

fn now_ts() -> i64 {
    chrono::Utc::now().timestamp()
}

fn decoded_claims(token: &str) -> serde_json::Value {
    let data = decode::<serde_json::Value>(
        token,
        &DecodingKey::from_secret(SECRET),
        &Validation::new(Algorithm::HS256),
    )
    .expect("token must verify under the signing secret");
    data.claims
}

#[test]
fn register_issues_verifiable_token_with_subject() {
    let mut store = CredStore::new();
    let now = now_ts();
    let token = register(&mut store, "alice", "pw1", now, SECRET).expect("registration succeeds");
    let claims = decoded_claims(&token);
    assert_eq!(claims["sub"].as_str(), Some("alice"));
    assert_eq!(claims["exp"].as_i64(), Some(now + TOKEN_LIFETIME_SECS));
    assert_eq!(store.users.len(), 1);
    assert_eq!(store.users[0].name, "alice");
    assert_ne!(store.users[0].password, "pw1");
}

#[test]
fn register_then_login_round_trips() {
    let mut store = CredStore::new();
    let now = now_ts();
    register(&mut store, "alice", "pw1", now, SECRET).expect("registration succeeds");
    let token = login(&store, "alice", "pw1", now, SECRET).expect("login succeeds");
    let claims = decoded_claims(&token);
    assert_eq!(claims["sub"].as_str(), Some("alice"));
}

#[test]
fn register_twice_is_conflict_and_adds_no_row() {
    let mut store = CredStore::new();
    let now = now_ts();
    register(&mut store, "alice", "pw1", now, SECRET).expect("first registration succeeds");
    let second = register(&mut store, "alice", "pw2", now, SECRET);
    assert_eq!(second, Err(ApiError::Conflict));
    assert_eq!(store.users.len(), 1);
}

#[test]
fn login_with_wrong_password_is_unauthorized() {
    let mut store = CredStore::new();
    let now = now_ts();
    register(&mut store, "alice", "pw1", now, SECRET).expect("registration succeeds");
    let wrong = login(&store, "alice", "wrongpw", now, SECRET);
    assert_eq!(wrong, Err(ApiError::Unauthorized));
    let right = login(&store, "alice", "pw1", now, SECRET);
    assert!(right.is_ok());
}

#[test]
fn login_of_unknown_user_is_not_found() {
    let store = CredStore::new();
    let r = login(&store, "nobody", "pw", now_ts(), SECRET);
    assert_eq!(r, Err(ApiError::NotFound));
}

#[test]
fn login_with_corrupt_stored_hash_is_reported() {
    let store = CredStore {
        users: vec![User { name: "bob".to_string(), password: "not-a-hash-record".to_string() }],
    };
    let r = login(&store, "bob", "whatever", now_ts(), SECRET);
    assert_eq!(r, Err(ApiError::CorruptHash));
}

#[test]
fn token_creation_succeeds_with_expiry_in_range() {
    let now = now_ts();
    let token = create_jwt("alice", SECRET, now).expect("in-range expiry always signs");
    let claims = decoded_claims(&token);
    assert_eq!(claims["sub"].as_str(), Some("alice"));
    assert_eq!(claims["exp"].as_i64(), Some(now + TOKEN_LIFETIME_SECS));
}

#[test]
fn token_expiry_overflow_is_token_error() {
    assert_eq!(create_jwt("alice", SECRET, i64::MAX), Err(ApiError::TokenError));
    assert_eq!(
        create_jwt("alice", SECRET, -TOKEN_LIFETIME_SECS - 1),
        Err(ApiError::TokenError)
    );
}

#[test]
fn token_does_not_verify_under_another_secret() {
    let mut store = CredStore::new();
    let token = register(&mut store, "alice", "pw1", now_ts(), SECRET).expect("succeeds");
    let r = decode::<serde_json::Value>(
        &token,
        &DecodingKey::from_secret(b"some-other-secret"),
        &Validation::new(Algorithm::HS256),
    );
    assert!(r.is_err());
}

#[test]
fn error_status_codes_follow_the_http_surface() {
    assert_eq!(ApiError::Conflict.http_status(), 409);
    assert_eq!(ApiError::NotFound.http_status(), 404);
    assert_eq!(ApiError::Unauthorized.http_status(), 401);
    assert_eq!(ApiError::InvalidArgument.http_status(), 400);
    assert_eq!(ApiError::CorruptHash.http_status(), 500);
    assert_eq!(ApiError::TokenError.http_status(), 500);
    assert_eq!(ApiError::StorageError.http_status(), 500);
}
