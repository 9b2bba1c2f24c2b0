use vstd::prelude::*;
use crate::errors::{ApiError, AuthReason};
use jsonwebtoken::errors::ErrorKind;
use jsonwebtoken::{DecodingKey, Validation};

verus! {

/// How long an issued token stays valid: seven days, in seconds.
pub const TOKEN_LIFETIME_SECS: i64 = 604800;

/// The payload carried inside a signed token.
#[derive(Debug)]
pub struct Claims {
    /// The subject: the owning user's id.
    pub sub: i32,
    pub email: String,
    pub username: String,
    /// Expiry instant, seconds since the Unix epoch.
    pub exp: i64,
    /// Issuance instant, seconds since the Unix epoch.
    pub iat: i64,
}

/// The mathematical content of a claims value.
pub ghost struct ClaimsView {
    pub sub: int,
    pub email: Seq<char>,
    pub username: Seq<char>,
    pub exp: int,
    pub iat: int,
}

impl View for Claims {
    type V = ClaimsView;

    open spec fn view(&self) -> ClaimsView {
        ClaimsView {
            sub: self.sub as int,
            email: self.email@,
            username: self.username@,
            exp: self.exp as int,
            iat: self.iat as int,
        }
    }
}

/// The claims for a user identity issued at time `now`.
pub open spec fn make_claims_spec(sub: int, email: Seq<char>, username: Seq<char>, now: int) -> ClaimsView {
    ClaimsView {
        sub: sub,
        email: email,
        username: username,
        exp: now + TOKEN_LIFETIME_SECS,
        iat: now,
    }
}

/// The error type of the jsonwebtoken crate, carried through opaquely.
#[verifier::external_type_specification]
#[verifier::external_body]
pub struct ExJwtError(jsonwebtoken::errors::Error);

/// What decoding a token under a secret yields: `Some` claims exactly when
/// the token is a well-formed three-segment structure whose signature checks
/// out under the secret and whose payload carries the five expected fields.
/// Signature checking is deterministic, so this is a function of the token
/// and the secret alone; expiry is deliberately not examined here (the caller
/// checks it separately).
pub uninterp spec fn jwt_claims(token: Seq<char>, secret: Seq<char>) -> Option<ClaimsView>;

/// Relies on jsonwebtoken::encode with the default header (HMAC-SHA-256):
/// the returned token decodes, under the same secret, back to exactly the
/// claims that were signed.
#[verifier::external_body]
fn sign_claims(c: &Claims, secret: &str) -> (r: Result<String, jsonwebtoken::errors::Error>)
    ensures
        (r matches Ok(t) ==> jwt_claims(t@, secret@) == Some(c@)),
{
    let mut m = serde_json::Map::new();
    m.insert("sub".into(), c.sub.into());
    m.insert("email".into(), c.email.clone().into());
    m.insert("username".into(), c.username.clone().into());
    m.insert("exp".into(), c.exp.into());
    m.insert("iat".into(), c.iat.into());
    jsonwebtoken::encode(
        &jsonwebtoken::Header::default(),
        &serde_json::Value::Object(m),
        &jsonwebtoken::EncodingKey::from_secret(secret.as_bytes()),
    )
}

/// Relies on jsonwebtoken::decode with HMAC-SHA-256 signature verification
/// and expiry validation switched off (the caller checks expiry explicitly):
/// returns exactly the claims named by `jwt_claims`, and errors exactly when
/// `jwt_claims` has none.
#[verifier::external_body]
fn decode_claims(token: &str, secret: &str) -> (r: Result<Claims, jsonwebtoken::errors::Error>)
    ensures
        (r matches Ok(c) ==> jwt_claims(token@, secret@) == Some(c@)),
        (r matches Err(_) ==> jwt_claims(token@, secret@) is None),
{
    let key = DecodingKey::from_secret(secret.as_bytes());
    let mut v = Validation::default();
    v.validate_exp = false;
    v.required_spec_claims.clear();
    let c = jsonwebtoken::decode::<serde_json::Value>(token, &key, &v)?.claims;
    let sub = c["sub"].as_i64().and_then(|x| i32::try_from(x).ok());
    match (sub, c["email"].as_str(), c["username"].as_str(), c["exp"].as_i64(), c["iat"].as_i64()) {
        (Some(sub), Some(e), Some(u), Some(exp), Some(iat)) =>
            Ok(Claims { sub, email: e.to_string(), username: u.to_string(), exp, iat }),
        _ => Err(ErrorKind::InvalidToken.into()),
    }
}

/// Builds the claims for a user identity issued at `now`.
pub fn issue_claims(sub: i32, email: &str, username: &str, now: i64) -> (r: Claims)
    requires
        now + TOKEN_LIFETIME_SECS <= i64::MAX,
    ensures
        r@ == make_claims_spec(sub as int, email@, username@, now as int),
{
    Claims {
        sub,
        email: email.to_owned(),
        username: username.to_owned(),
        exp: now + TOKEN_LIFETIME_SECS,
        iat: now,
    }
}

/// Signs a claims value into a token.  Fails only on an internal signing
/// fault, never because of the claims.
pub fn sign_token(claims: &Claims, secret: &str) -> (r: Result<String, ApiError>)
    ensures
        (r matches Ok(t) ==> jwt_claims(t@, secret@) == Some(claims@)),
        (r matches Err(e) ==> e == ApiError::Internal),
{
    match sign_claims(claims, secret) {
        Ok(t) => Ok(t),
        Err(_) => Err(ApiError::Internal),
    }
}

/// Decodes a token and verifies its signature; expiry is not examined here.
pub fn decode_jwt(token: &str, secret: &str) -> (r: Result<Claims, ApiError>)
    ensures
        (r is Ok <==> jwt_claims(token@, secret@) is Some),
        (r matches Ok(c) ==> jwt_claims(token@, secret@) == Some(c@)),
        (r matches Err(e) ==> e == ApiError::Auth(AuthReason::InvalidToken)),
{
    match decode_claims(token, secret) {
        Ok(c) => Ok(c),
        Err(_) => Err(ApiError::Auth(AuthReason::InvalidToken)),
    }
}

/// The outcome of validating a presented token at time `now`: the decoded
/// claims when the signature checks out and the token has not yet expired,
/// and the precise error otherwise.
pub open spec fn validate_spec(token: Seq<char>, secret: Seq<char>, now: int) -> Result<ClaimsView, ApiError> {
    match jwt_claims(token, secret) {
        Option::None => Result::Err(ApiError::Auth(AuthReason::InvalidToken)),
        Option::Some(c) => if c.exp < now {
            Result::Err(ApiError::Auth(AuthReason::TokenExpired))
        } else {
            Result::Ok(c)
        },
    }
}

/// Validates a presented bearer token: the signature must check out and the
/// expiry instant must not lie in the past.  The two checks are independent;
/// a cryptographically valid but expired token is rejected here.
pub fn validate_token(token: &str, secret: &str, now: i64) -> (r: Result<Claims, ApiError>)
    ensures
        (r matches Ok(c) ==> validate_spec(token@, secret@, now as int) == Result::<ClaimsView, ApiError>::Ok(c@)),
        (r matches Err(e) ==> validate_spec(token@, secret@, now as int) == Result::<ClaimsView, ApiError>::Err(e)),
{
    match decode_jwt(token, secret) {
        Err(e) => Err(e),
        Ok(c) => {
            if c.exp < now {
                Err(ApiError::Auth(AuthReason::TokenExpired))
            } else {
                Ok(c)
            }
        },
    }
}

/// A token that decodes to claims issued at `t0` passes validation at `t0`
/// (and at any instant up to its expiry) and fails validation with a
/// token-expired error one second past its seven-day lifetime.
pub proof fn lemma_issued_token_validity(
    token: Seq<char>,
    secret: Seq<char>,
    sub: int,
    email: Seq<char>,
    username: Seq<char>,
    t0: int,
)
    ensures
        jwt_claims(token, secret) == Some(make_claims_spec(sub, email, username, t0)) ==> {
            &&& validate_spec(token, secret, t0)
                == Result::<ClaimsView, ApiError>::Ok(make_claims_spec(sub, email, username, t0))
            &&& validate_spec(token, secret, t0 + TOKEN_LIFETIME_SECS + 1)
                == Result::<ClaimsView, ApiError>::Err(ApiError::Auth(AuthReason::TokenExpired))
        },
{
}

} // verus!
