use memeshare::authstore::{AuthStore, LoginRequest, RegisterRequest, UpdateProfileRequest};
use memeshare::credentials::{hash_password, verify_password};
use memeshare::errors::{ApiError, AuthReason, ConflictKind};
use memeshare::token::validate_token;

const SECRET: &str = "test-signing-secret";
const NOW: i64 = 1_700_000_000;
const WEEK: i64 = 604_800;

fn valid_request(username: &str, email: &str) -> RegisterRequest {
    RegisterRequest {
        username: username.to_string(),
        email: email.to_string(),
        password: "hunter2hunter2".to_string(),
        display_name: Some("Display".to_string()),
        wallet_address: None,
    }
}

#[test]
fn register_creates_user_and_session() {
    let mut store = AuthStore::new();
    let resp = store
        .register(&valid_request("alice", "alice@example.com"), SECRET, NOW)
        .unwrap();
    assert_eq!(resp.user.user_id, 1);
    assert_eq!(resp.user.username, "alice");
    assert_eq!(resp.user.email, "alice@example.com");
    assert_eq!(resp.user.followers_count, 0);
    assert_eq!(resp.user.following_count, 0);
    assert_eq!(resp.user.created_at, NOW);
    assert_eq!(store.users.len(), 1);
    assert_eq!(store.sessions.len(), 1);
    assert!(store.sessions[0].is_active);
    assert_eq!(store.sessions[0].expires_at, NOW + WEEK);
    assert_eq!(store.sessions[0].token, resp.token);
}

#[test]
fn register_expires_at_is_rfc3339_of_expiry() {
    let mut store = AuthStore::new();
    // expiry lands exactly one week into 1970 for now = 0
    let resp = store
        .register(&valid_request("bob", "bob@example.com"), SECRET, 0)
        .unwrap();
    assert_eq!(resp.expires_at, "1970-01-08T00:00:00+00:00");
}

#[test]
fn duplicate_email_is_a_conflict() {
    let mut store = AuthStore::new();
    store
        .register(&valid_request("alice", "alice@example.com"), SECRET, NOW)
        .unwrap();
    let err = store
        .register(&valid_request("allie", "alice@example.com"), SECRET, NOW)
        .unwrap_err();
    assert_eq!(err, ApiError::Conflict(ConflictKind::Email));
    assert_eq!(err.message(), "Email already registered");
    assert_eq!(store.users.len(), 1);
}

#[test]
fn duplicate_username_is_a_conflict() {
    let mut store = AuthStore::new();
    store
        .register(&valid_request("alice", "alice@example.com"), SECRET, NOW)
        .unwrap();
    let err = store
        .register(&valid_request("alice", "other@example.com"), SECRET, NOW)
        .unwrap_err();
    assert_eq!(err, ApiError::Conflict(ConflictKind::Username));
    assert_eq!(err.message(), "Username already taken");
}

#[test]
fn register_rejects_bad_shapes() {
    let mut store = AuthStore::new();
    let mut req = valid_request("al", "alice@example.com");
    match store.register(&req, SECRET, NOW).unwrap_err() {
        ApiError::Validation(d) => {
            assert!(!d.username_ok);
            assert!(d.email_ok);
            assert!(d.password_ok);
        }
        other => panic!("expected a validation error, got {:?}", other),
    }
    req = valid_request("alice", "not-an-email");
    match store.register(&req, SECRET, NOW).unwrap_err() {
        ApiError::Validation(d) => {
            assert!(d.username_ok);
            assert!(!d.email_ok);
        }
        other => panic!("expected a validation error, got {:?}", other),
    }
    req = valid_request("alice", "alice@example.com");
    req.password = "short".to_string();
    match store.register(&req, SECRET, NOW).unwrap_err() {
        ApiError::Validation(d) => {
            assert!(!d.password_ok);
            assert!(d.username_ok && d.email_ok);
        }
        other => panic!("expected a validation error, got {:?}", other),
    }
    assert!(store.users.is_empty());
}

#[test]
fn fresh_token_validates_and_expired_token_fails() {
    let mut store = AuthStore::new();
    let resp = store
        .register(&valid_request("alice", "alice@example.com"), SECRET, NOW)
        .unwrap();
    let claims = validate_token(&resp.token, SECRET, NOW).unwrap();
    assert_eq!(claims.sub, resp.user.user_id);
    assert_eq!(claims.email, "alice@example.com");
    assert_eq!(claims.username, "alice");
    assert_eq!(claims.iat, NOW);
    assert_eq!(claims.exp, NOW + WEEK);
    // still fine at the expiry instant itself
    assert!(validate_token(&resp.token, SECRET, NOW + WEEK).is_ok());
    // one second past the lifetime it is rejected as expired
    let err = validate_token(&resp.token, SECRET, NOW + WEEK + 1).unwrap_err();
    assert_eq!(err, ApiError::Auth(AuthReason::TokenExpired));
    assert_eq!(err.message(), "Token expired");
}

#[test]
fn tampered_or_foreign_tokens_are_invalid() {
    let mut store = AuthStore::new();
    let resp = store
        .register(&valid_request("alice", "alice@example.com"), SECRET, NOW)
        .unwrap();
    let mut tampered = resp.token.clone();
    tampered.push('x');
    assert_eq!(
        validate_token(&tampered, SECRET, NOW).unwrap_err(),
        ApiError::Auth(AuthReason::InvalidToken)
    );
    assert_eq!(
        validate_token(&resp.token, "another-secret", NOW).unwrap_err(),
        ApiError::Auth(AuthReason::InvalidToken)
    );
    assert_eq!(
        validate_token("definitely.not.a-token", SECRET, NOW).unwrap_err(),
        ApiError::Auth(AuthReason::InvalidToken)
    );
}

#[test]
fn login_succeeds_with_correct_credentials() {
    let mut store = AuthStore::new();
    store
        .register(&valid_request("alice", "alice@example.com"), SECRET, NOW)
        .unwrap();
    let resp = store
        .login(
            &LoginRequest {
                email: "alice@example.com".to_string(),
                password: "hunter2hunter2".to_string(),
            },
            SECRET,
            NOW + 10,
        )
        .unwrap();
    assert_eq!(resp.user.username, "alice");
    assert_eq!(store.sessions.len(), 2);
    let claims = validate_token(&resp.token, SECRET, NOW + 10).unwrap();
    assert_eq!(claims.sub, resp.user.user_id);
}

#[test]
fn login_failures_share_one_error_message() {
    let mut store = AuthStore::new();
    store
        .register(&valid_request("alice", "alice@example.com"), SECRET, NOW)
        .unwrap();
    let wrong_password = store
        .login(
            &LoginRequest {
                email: "alice@example.com".to_string(),
                password: "wrong-password".to_string(),
            },
            SECRET,
            NOW,
        )
        .unwrap_err();
    let unknown_email = store
        .login(
            &LoginRequest {
                email: "nobody@example.com".to_string(),
                password: "hunter2hunter2".to_string(),
            },
            SECRET,
            NOW,
        )
        .unwrap_err();
    assert_eq!(wrong_password, unknown_email);
    assert_eq!(wrong_password, ApiError::Auth(AuthReason::InvalidCredentials));
    assert_eq!(wrong_password.message(), unknown_email.message());
    assert_eq!(wrong_password.message(), "Invalid email or password");
}

#[test]
fn password_hashing_round_trip() {
    let hash = hash_password("hunter2hunter2").unwrap();
    assert!(verify_password("hunter2hunter2", &hash).unwrap());
    assert!(!verify_password("hunter2hunter3", &hash).unwrap());
    // a malformed stored hash is an internal error, not a mismatch
    assert_eq!(
        verify_password("hunter2hunter2", "not-a-bcrypt-hash").unwrap_err(),
        ApiError::Internal
    );
}

#[test]
fn logout_invalidates_matching_sessions_only() {
    let mut store = AuthStore::new();
    let first = store
        .register(&valid_request("alice", "alice@example.com"), SECRET, NOW)
        .unwrap();
    let second = store
        .login(
            &LoginRequest {
                email: "alice@example.com".to_string(),
                password: "hunter2hunter2".to_string(),
            },
            SECRET,
            NOW + 5,
        )
        .unwrap();
    store.logout(&first.token);
    assert!(!store.sessions[0].is_active);
    assert!(store.sessions[1].is_active);
    // logging out an unknown token changes nothing and still succeeds
    store.logout("unknown-token");
    assert!(store.sessions[1].is_active);
    assert_eq!(second.user.username, "alice");
}

#[test]
fn current_user_and_profile_update() {
    let mut store = AuthStore::new();
    let resp = store
        .register(&valid_request("alice", "alice@example.com"), SECRET, NOW)
        .unwrap();
    let me = store.get_current_user(resp.user.user_id).unwrap();
    assert_eq!(me.username, "alice");
    assert_eq!(me.display_name.as_deref(), Some("Display"));
    assert_eq!(
        store.get_current_user(99).unwrap_err(),
        ApiError::NotFound
    );
    let updated = store
        .update_profile(
            resp.user.user_id,
            &UpdateProfileRequest {
                display_name: None,
                bio: Some("hello".to_string()),
                profile_picture_url: None,
            },
        )
        .unwrap();
    // present fields overwrite, absent fields keep their stored values
    assert_eq!(updated.display_name.as_deref(), Some("Display"));
    assert_eq!(updated.bio.as_deref(), Some("hello"));
    assert_eq!(
        store
            .update_profile(
                99,
                &UpdateProfileRequest {
                    display_name: None,
                    bio: None,
                    profile_picture_url: None,
                },
            )
            .unwrap_err(),
        ApiError::Internal
    );
}

#[test]
fn error_status_codes() {
    assert_eq!(ApiError::NotFound.status_code(), 404);
    assert_eq!(ApiError::Internal.status_code(), 500);
    assert_eq!(ApiError::Conflict(ConflictKind::Email).status_code(), 409);
    assert_eq!(
        ApiError::Auth(AuthReason::InvalidCredentials).status_code(),
        401
    );
}
