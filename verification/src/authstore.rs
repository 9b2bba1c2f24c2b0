use vstd::prelude::*;
use crate::clock::{format_rfc3339, now_unix, rfc3339_of, MAX_FORMATTABLE_TS};
use crate::credentials::{bcrypt_check, bcrypt_matches, hash_password, verify_password};
use crate::errors::{ApiError, AuthReason, ConflictKind, ValidationDetails};
use crate::seqtools::{
    first_match_index, lemma_first_match_index_is, lemma_first_match_index_none,
};
use crate::text::{clone_opt_string, str_eq};
use crate::token::{
    issue_claims, jwt_claims, make_claims_spec, sign_token, TOKEN_LIFETIME_SECS,
};
use vstd::string::StrSliceExecFns;

verus! {

/// Input to registration: credentials plus the optional profile seed fields.
#[derive(Debug)]
pub struct RegisterRequest {
    /// Must be 3 to 50 characters.
    pub username: String,
    /// Must be a well-formed email address.
    pub email: String,
    /// Must be at least 8 characters.
    pub password: String,
    pub display_name: Option<String>,
    pub wallet_address: Option<String>,
}

/// Input to login.
#[derive(Debug)]
pub struct LoginRequest {
    pub email: String,
    pub password: String,
}

/// Partial profile update: only the fields that are present overwrite the
/// stored values.
#[derive(Debug)]
pub struct UpdateProfileRequest {
    pub display_name: Option<String>,
    pub bio: Option<String>,
    pub profile_picture_url: Option<String>,
}

/// A stored account row.
#[derive(Debug)]
pub struct User {
    pub user_id: i32,
    pub username: String,
    pub email: String,
    pub password_hash: String,
    pub display_name: Option<String>,
    pub bio: Option<String>,
    pub profile_picture_url: Option<String>,
    pub wallet_address: Option<String>,
    pub followers_count: Option<i32>,
    pub following_count: Option<i32>,
    pub posts_count: Option<i32>,
    pub is_active: Option<bool>,
    /// Creation instant, seconds since the Unix epoch.
    pub created_at: Option<i64>,
}

/// The public projection of a user.  It has no field for the password hash,
/// so the hash can never leak through it.
#[derive(Debug)]
pub struct UserResponse {
    pub user_id: i32,
    pub username: String,
    pub email: String,
    pub display_name: Option<String>,
    pub bio: Option<String>,
    pub profile_picture_url: Option<String>,
    pub wallet_address: Option<String>,
    pub followers_count: i32,
    pub following_count: i32,
    pub posts_count: i32,
    /// Creation instant, seconds since the Unix epoch; zero when unknown.
    pub created_at: i64,
}

/// What a successful registration or login hands back.
#[derive(Debug)]
pub struct AuthResponse {
    pub user: UserResponse,
    pub token: String,
    /// RFC 3339 rendering of the token's expiry instant.
    pub expires_at: String,
}

/// One row of the session ledger: an advisory record of an issued token.
#[derive(Debug)]
pub struct Session {
    pub user_id: i32,
    pub token: String,
    /// Expiry instant, seconds since the Unix epoch.
    pub expires_at: i64,
    pub is_active: bool,
}

/// The account store behind the authentication flows: users, the session
/// ledger, and the id counter.
#[derive(Debug)]
pub struct AuthStore {
    pub users: Vec<User>,
    pub sessions: Vec<Session>,
    pub next_user_id: i32,
}

/// `c`, or zero where the row never had a value.
pub open spec fn opt_or_zero(o: Option<i32>) -> i32 {
    match o {
        Option::Some(c) => c,
        Option::None => 0,
    }
}

/// The projection `resp` faithfully reflects the stored row `u`.
pub open spec fn response_matches(u: User, resp: UserResponse) -> bool {
    &&& resp.user_id == u.user_id
    &&& resp.username@ == u.username@
    &&& resp.email@ == u.email@
    &&& resp.display_name == u.display_name
    &&& resp.bio == u.bio
    &&& resp.profile_picture_url == u.profile_picture_url
    &&& resp.wallet_address == u.wallet_address
    &&& resp.followers_count == opt_or_zero(u.followers_count)
    &&& resp.following_count == opt_or_zero(u.following_count)
    &&& resp.posts_count == opt_or_zero(u.posts_count)
    &&& resp.created_at == (match u.created_at {
        Option::Some(t) => t,
        Option::None => 0i64,
    })
}

impl User {
    /// The public projection of this row; the password hash is left behind.
    pub fn to_response(&self) -> (r: UserResponse)
        ensures
            response_matches(*self, r),
    {
        UserResponse {
            user_id: self.user_id,
            username: self.username.clone(),
            email: self.email.clone(),
            display_name: clone_opt_string(&self.display_name),
            bio: clone_opt_string(&self.bio),
            profile_picture_url: clone_opt_string(&self.profile_picture_url),
            wallet_address: clone_opt_string(&self.wallet_address),
            followers_count: match self.followers_count {
                Some(c) => c,
                None => 0,
            },
            following_count: match self.following_count {
                Some(c) => c,
                None => 0,
            },
            posts_count: match self.posts_count {
                Some(c) => c,
                None => 0,
            },
            created_at: match self.created_at {
                Some(t) => t,
                None => 0,
            },
        }
    }
}

/// Whether a string is a well-formed email address in the sense of the HTML5
/// shape check: what the validator crate computes, a function of the
/// characters alone.
pub uninterp spec fn email_ok(s: Seq<char>) -> bool;

/// Relies on validator's ValidateEmail for str: the HTML5 email shape check.
#[verifier::external_body]
fn is_valid_email(s: &str) -> (r: bool)
    ensures
        r == email_ok(s@),
{
    validator::ValidateEmail::validate_email(&s)
}

/// The shape checks registration input must pass: username of 3 to 50
/// characters, well-formed email, password of at least 8 characters.
pub open spec fn shape_of(req: RegisterRequest) -> ValidationDetails {
    ValidationDetails {
        username_ok: 3 <= req.username@.len() <= 50,
        email_ok: email_ok(req.email@),
        password_ok: req.password@.len() >= 8,
    }
}

/// Runs the registration shape checks.
pub fn validate_register(req: &RegisterRequest) -> (r: ValidationDetails)
    ensures
        r == shape_of(*req),
{
    let ulen = req.username.as_str().unicode_len();
    let plen = req.password.as_str().unicode_len();
    ValidationDetails {
        username_ok: 3 <= ulen && ulen <= 50,
        email_ok: is_valid_email(req.email.as_str()),
        password_ok: plen >= 8,
    }
}

/// Some stored user already owns this email.
pub open spec fn email_taken(users: Seq<User>, email: Seq<char>) -> bool {
    exists|i: int| 0 <= i < users.len() && #[trigger] users[i].email@ == email
}

/// Some stored user already owns this username.
pub open spec fn username_taken(users: Seq<User>, username: Seq<char>) -> bool {
    exists|i: int| 0 <= i < users.len() && #[trigger] users[i].username@ == username
}

/// Why a registration is turned away, if it is: the shape checks first, then
/// email uniqueness, then username uniqueness.  `None` means the request is
/// acceptable (it can then still fail internally, on hashing or signing).
pub open spec fn register_rejection(users: Seq<User>, req: RegisterRequest) -> Option<ApiError> {
    let d = shape_of(req);
    if !d.all_ok() {
        Some(ApiError::Validation(d))
    } else if email_taken(users, req.email@) {
        Some(ApiError::Conflict(ConflictKind::Email))
    } else if username_taken(users, req.username@) {
        Some(ApiError::Conflict(ConflictKind::Username))
    } else {
        None
    }
}

/// The user row a login for `email` would authenticate against: active and
/// owning that email.
pub open spec fn is_login_match(u: User, email: Seq<char>) -> bool {
    u.email@ == email && u.is_active == Some(true)
}

/// Index of the user row a login for `email` runs against, if any.
pub open spec fn login_user_index(users: Seq<User>, email: Seq<char>) -> Option<int> {
    first_match_index(users, |u: User| is_login_match(u, email))
}

/// Why a login fails, if it does.  An unknown email and a wrong password
/// yield the very same error value, so a caller cannot probe which emails
/// exist.  A malformed stored hash is an internal fault.  `None` means the
/// credentials are good (the flow can then still fail internally, on
/// signing).
pub open spec fn login_outcome(users: Seq<User>, email: Seq<char>, password: Seq<char>) -> Option<ApiError> {
    match login_user_index(users, email) {
        Option::None => Some(ApiError::Auth(AuthReason::InvalidCredentials)),
        Option::Some(i) => match bcrypt_check(password, users[i].password_hash@) {
            Option::None => Some(ApiError::Internal),
            Option::Some(false) => Some(ApiError::Auth(AuthReason::InvalidCredentials)),
            Option::Some(true) => None,
        },
    }
}

/// What a successful registration leaves behind and hands back.
pub open spec fn register_success(
    pre: AuthStore,
    post: AuthStore,
    req: RegisterRequest,
    resp: AuthResponse,
    secret: Seq<char>,
    now: i64,
) -> bool {
    let u = post.users@.last();
    let s = post.sessions@.last();
    &&& post.users@ == pre.users@.push(u)
    &&& u.user_id == pre.next_user_id
    &&& u.username@ == req.username@
    &&& u.email@ == req.email@
    &&& bcrypt_matches(req.password@, u.password_hash@)
    &&& u.display_name == req.display_name
    &&& u.wallet_address == req.wallet_address
    &&& u.bio is None
    &&& u.profile_picture_url is None
    &&& u.followers_count == Some(0i32)
    &&& u.following_count == Some(0i32)
    &&& u.posts_count == Some(0i32)
    &&& u.is_active == Some(true)
    &&& u.created_at == Some(now)
    &&& post.next_user_id == pre.next_user_id + 1
    &&& post.sessions@ == pre.sessions@.push(s)
    &&& s.user_id == u.user_id
    &&& s.token@ == resp.token@
    &&& s.expires_at == now + TOKEN_LIFETIME_SECS
    &&& s.is_active
    &&& response_matches(u, resp.user)
    &&& jwt_claims(resp.token@, secret) == Some(
        make_claims_spec(u.user_id as int, req.email@, req.username@, now as int),
    )
    &&& resp.expires_at@ == rfc3339_of(now + TOKEN_LIFETIME_SECS)
}

/// What a successful login leaves behind and hands back.
pub open spec fn login_success(
    pre: AuthStore,
    post: AuthStore,
    email: Seq<char>,
    resp: AuthResponse,
    secret: Seq<char>,
    now: i64,
) -> bool {
    match login_user_index(pre.users@, email) {
        Option::None => false,
        Option::Some(i) => {
            let u = pre.users@[i];
            let s = post.sessions@.last();
            &&& post.users@ == pre.users@
            &&& post.next_user_id == pre.next_user_id
            &&& post.sessions@ == pre.sessions@.push(s)
            &&& s.user_id == u.user_id
            &&& s.token@ == resp.token@
            &&& s.expires_at == now + TOKEN_LIFETIME_SECS
            &&& s.is_active
            &&& response_matches(u, resp.user)
            &&& jwt_claims(resp.token@, secret) == Some(
                make_claims_spec(u.user_id as int, u.email@, u.username@, now as int),
            )
            &&& resp.expires_at@ == rfc3339_of(now + TOKEN_LIFETIME_SECS)
        },
    }
}

/// Whether some stored user already owns this email.
fn email_exists(users: &Vec<User>, email: &str) -> (r: bool)
    ensures
        r == email_taken(users@, email@),
{
    let n = users.len();
    let mut i: usize = 0;
    while i < n
        invariant
            n == users@.len(),
            i <= n,
            forall|j: int| 0 <= j < i ==> (#[trigger] users@[j]).email@ != email@,
        decreases n - i,
    {
        if str_eq(users[i].email.as_str(), email) {
            proof {
                assert(users@[i as int].email@ == email@);
            }
            return true;
        }
        i = i + 1;
    }
    false
}

/// Whether some stored user already owns this username.
fn username_exists(users: &Vec<User>, username: &str) -> (r: bool)
    ensures
        r == username_taken(users@, username@),
{
    let n = users.len();
    let mut i: usize = 0;
    while i < n
        invariant
            n == users@.len(),
            i <= n,
            forall|j: int| 0 <= j < i ==> (#[trigger] users@[j]).username@ != username@,
        decreases n - i,
    {
        if str_eq(users[i].username.as_str(), username) {
            proof {
                assert(users@[i as int].username@ == username@);
            }
            return true;
        }
        i = i + 1;
    }
    false
}

/// Finds the user row a login for `email` runs against: the first active row
/// owning that email.
fn find_login_index(users: &Vec<User>, email: &str) -> (r: Option<usize>)
    ensures
        (match r {
            Option::Some(k) => k < users@.len() && login_user_index(users@, email@) == Some(
                k as int,
            ),
            Option::None => login_user_index(users@, email@) is None,
        }),
{
    let n = users.len();
    let mut i: usize = 0;
    while i < n
        invariant
            n == users@.len(),
            i <= n,
            forall|j: int| 0 <= j < i ==> !is_login_match(#[trigger] users@[j], email@),
        decreases n - i,
    {
        let active = match users[i].is_active {
            Some(true) => true,
            _ => false,
        };
        if active && str_eq(users[i].email.as_str(), email) {
            proof {
                lemma_first_match_index_is(
                    users@,
                    |u: User| is_login_match(u, email@),
                    i as int,
                );
            }
            return Some(i);
        }
        i = i + 1;
    }
    proof {
        lemma_first_match_index_none(users@, |u: User| is_login_match(u, email@));
    }
    None
}

impl AuthStore {
    /// Emails, usernames and ids are pairwise distinct, and ids stay below
    /// the id counter.
    pub open spec fn wf(self) -> bool {
        &&& forall|i: int, j: int|
            #![trigger self.users@[i], self.users@[j]]
            0 <= i < j < self.users@.len() ==> {
                &&& self.users@[i].email@ != self.users@[j].email@
                &&& self.users@[i].username@ != self.users@[j].username@
                &&& self.users@[i].user_id != self.users@[j].user_id
            }
        &&& forall|i: int|
            0 <= i < self.users@.len() ==> 1 <= (#[trigger] self.users@[i]).user_id
                < self.next_user_id
        &&& self.next_user_id >= 1
    }

    /// An empty store.
    pub fn new() -> (r: AuthStore)
        ensures
            r.wf(),
            r.users@.len() == 0,
            r.sessions@.len() == 0,
            r.next_user_id == 1,
    {
        AuthStore { users: Vec::new(), sessions: Vec::new(), next_user_id: 1 }
    }

    /// Registration: shape checks, then email and username uniqueness, then
    /// password hashing, token issuance and the new row.  Recording the
    /// session cannot fail in this store, so a session row always accompanies
    /// a success.
    pub fn register(&mut self, req: &RegisterRequest, secret: &str, now: i64) -> (r: Result<
        AuthResponse,
        ApiError,
    >)
        requires
            old(self).wf(),
            0 <= now,
            now + TOKEN_LIFETIME_SECS <= MAX_FORMATTABLE_TS,
            old(self).next_user_id < i32::MAX,
        ensures
            final(self).wf(),
            (match register_rejection(old(self).users@, *req) {
                Option::Some(e) => r == Err::<AuthResponse, ApiError>(e) && *final(self) == *old(
                    self,
                ),
                Option::None => match r {
                    Result::Err(e2) => e2 == ApiError::Internal && *final(self) == *old(self),
                    Result::Ok(resp) => register_success(
                        *old(self),
                        *final(self),
                        *req,
                        resp,
                        secret@,
                        now,
                    ),
                },
            }),
    {
        let details = validate_register(req);
        if !(details.username_ok && details.email_ok && details.password_ok) {
            return Err(ApiError::Validation(details));
        }
        if email_exists(&self.users, req.email.as_str()) {
            return Err(ApiError::Conflict(ConflictKind::Email));
        }
        if username_exists(&self.users, req.username.as_str()) {
            return Err(ApiError::Conflict(ConflictKind::Username));
        }
        let password_hash = match hash_password(req.password.as_str()) {
            Ok(h) => h,
            Err(e) => return Err(e),
        };
        let user_id = self.next_user_id;
        let claims = issue_claims(user_id, req.email.as_str(), req.username.as_str(), now);
        let token = match sign_token(&claims, secret) {
            Ok(t) => t,
            Err(e) => return Err(e),
        };
        let expiry = now + TOKEN_LIFETIME_SECS;
        let user = User {
            user_id,
            username: req.username.clone(),
            email: req.email.clone(),
            password_hash,
            display_name: clone_opt_string(&req.display_name),
            bio: None,
            profile_picture_url: None,
            wallet_address: clone_opt_string(&req.wallet_address),
            followers_count: Some(0),
            following_count: Some(0),
            posts_count: Some(0),
            is_active: Some(true),
            created_at: Some(now),
        };
        let resp_user = user.to_response();
        self.users.push(user);
        self.next_user_id = user_id + 1;
        self.sessions.push(
            Session { user_id, token: token.clone(), expires_at: expiry, is_active: true },
        );
        let expires_at = format_rfc3339(expiry);
        proof {
            let users1 = self.users@;
            let users0 = old(self).users@;
            assert forall|a: int, b: int|
                #![trigger users1[a], users1[b]]
                0 <= a < b < users1.len() implies {
                &&& users1[a].email@ != users1[b].email@
                &&& users1[a].username@ != users1[b].username@
                &&& users1[a].user_id != users1[b].user_id
            } by {
                if b < users0.len() {
                } else {
                    assert(users1[a] == users0[a]);
                    assert(users1[b] == users1.last());
                }
            }
        }
        Ok(AuthResponse { user: resp_user, token, expires_at })
    }

    /// Login: find the active account for the email, check the password, and
    /// on success issue a token and record a session.  An unknown email and a
    /// wrong password return the same error value.
    pub fn login(&mut self, req: &LoginRequest, secret: &str, now: i64) -> (r: Result<
        AuthResponse,
        ApiError,
    >)
        requires
            old(self).wf(),
            0 <= now,
            now + TOKEN_LIFETIME_SECS <= MAX_FORMATTABLE_TS,
        ensures
            final(self).wf(),
            final(self).users@ == old(self).users@,
            final(self).next_user_id == old(self).next_user_id,
            (match login_outcome(old(self).users@, req.email@, req.password@) {
                Option::Some(e) => r == Err::<AuthResponse, ApiError>(e) && *final(self) == *old(
                    self,
                ),
                Option::None => match r {
                    Result::Err(e2) => e2 == ApiError::Internal && *final(self) == *old(self),
                    Result::Ok(resp) => login_success(
                        *old(self),
                        *final(self),
                        req.email@,
                        resp,
                        secret@,
                        now,
                    ),
                },
            }),
    {
        let idx = match find_login_index(&self.users, req.email.as_str()) {
            Some(idx) => idx,
            None => {
                return Err(ApiError::Auth(AuthReason::InvalidCredentials));
            },
        };
        let matched = match verify_password(
            req.password.as_str(),
            self.users[idx].password_hash.as_str(),
        ) {
            Ok(b) => b,
            Err(e) => return Err(e),
        };
        if !matched {
            return Err(ApiError::Auth(AuthReason::InvalidCredentials));
        }
        let user = &self.users[idx];
        let claims = issue_claims(user.user_id, user.email.as_str(), user.username.as_str(), now);
        let token = match sign_token(&claims, secret) {
            Ok(t) => t,
            Err(e) => return Err(e),
        };
        let resp_user = user.to_response();
        let user_id = user.user_id;
        let expiry = now + TOKEN_LIFETIME_SECS;
        self.sessions.push(
            Session { user_id, token: token.clone(), expires_at: expiry, is_active: true },
        );
        let expires_at = format_rfc3339(expiry);
        Ok(AuthResponse { user: resp_user, token, expires_at })
    }
}

/// An active user row with this id.
pub open spec fn is_active_with_id(u: User, id: i32) -> bool {
    u.user_id == id && u.is_active == Some(true)
}

/// Index of the active user row with this id, if any.
pub open spec fn current_user_index(users: Seq<User>, id: i32) -> Option<int> {
    first_match_index(users, |u: User| is_active_with_id(u, id))
}

/// Index of the user row with this id, active or not, if any.
pub open spec fn user_index_by_id(users: Seq<User>, id: i32) -> Option<int> {
    first_match_index(users, |u: User| u.user_id == id)
}

/// The given string if present, otherwise the stored one: the update rule of
/// each profile field.
pub open spec fn coalesce(fresh: Option<String>, stored: Option<String>) -> Option<String> {
    match fresh {
        Option::Some(s) => Some(s),
        Option::None => stored,
    }
}

/// A user row after a partial profile update: present request fields
/// overwrite, absent ones leave the stored value.
pub open spec fn patched(u: User, req: UpdateProfileRequest) -> User {
    User {
        display_name: coalesce(req.display_name, u.display_name),
        bio: coalesce(req.bio, u.bio),
        profile_picture_url: coalesce(req.profile_picture_url, u.profile_picture_url),
        ..u
    }
}

/// A session row after invalidation.
pub open spec fn deactivated(s: Session) -> Session {
    Session { is_active: false, ..s }
}

impl AuthStore {
    /// The stored row for the authenticated user, projected for the client;
    /// a missing or deactivated account is not found.
    pub fn get_current_user(&self, user_id: i32) -> (r: Result<UserResponse, ApiError>)
        ensures
            (match current_user_index(self.users@, user_id) {
                Option::Some(i) => r matches Ok(resp) && response_matches(self.users@[i], resp),
                Option::None => r == Err::<UserResponse, ApiError>(ApiError::NotFound),
            }),
    {
        let n = self.users.len();
        let mut i: usize = 0;
        while i < n
            invariant
                n == self.users@.len(),
                i <= n,
                forall|j: int| 0 <= j < i ==> !is_active_with_id(#[trigger] self.users@[j], user_id),
            decreases n - i,
        {
            let active = match self.users[i].is_active {
                Some(true) => true,
                _ => false,
            };
            if active && self.users[i].user_id == user_id {
                proof {
                    lemma_first_match_index_is(
                        self.users@,
                        |u: User| is_active_with_id(u, user_id),
                        i as int,
                    );
                }
                return Ok(self.users[i].to_response());
            }
            i = i + 1;
        }
        proof {
            lemma_first_match_index_none(self.users@, |u: User| is_active_with_id(u, user_id));
        }
        Err(ApiError::NotFound)
    }

    /// Partial profile update: the present request fields overwrite the
    /// stored values, the absent ones are kept, and the refreshed projection
    /// is returned.  A missing row is an internal fault (the flow is only
    /// reached with an authenticated id).
    pub fn update_profile(&mut self, user_id: i32, req: &UpdateProfileRequest) -> (r: Result<
        UserResponse,
        ApiError,
    >)
        requires
            old(self).wf(),
        ensures
            final(self).wf(),
            final(self).sessions@ == old(self).sessions@,
            final(self).next_user_id == old(self).next_user_id,
            (match user_index_by_id(old(self).users@, user_id) {
                Option::None => r == Err::<UserResponse, ApiError>(ApiError::Internal)
                    && final(self).users@ == old(self).users@,
                Option::Some(i) => {
                    &&& final(self).users@ == old(self).users@.update(
                        i,
                        patched(old(self).users@[i], *req),
                    )
                    &&& r matches Ok(resp) && response_matches(
                        patched(old(self).users@[i], *req),
                        resp,
                    )
                },
            }),
    {
        let idx = match find_index_by_id(&self.users, user_id) {
            Some(idx) => idx,
            None => {
                return Err(ApiError::Internal);
            },
        };
        let display_name = match &req.display_name {
            Some(s) => Some(s.clone()),
            None => clone_opt_string(&self.users[idx].display_name),
        };
        let bio = match &req.bio {
            Some(s) => Some(s.clone()),
            None => clone_opt_string(&self.users[idx].bio),
        };
        let profile_picture_url = match &req.profile_picture_url {
            Some(s) => Some(s.clone()),
            None => clone_opt_string(&self.users[idx].profile_picture_url),
        };
        let new_user = User {
            user_id: self.users[idx].user_id,
            username: self.users[idx].username.clone(),
            email: self.users[idx].email.clone(),
            password_hash: self.users[idx].password_hash.clone(),
            display_name,
            bio,
            profile_picture_url,
            wallet_address: clone_opt_string(&self.users[idx].wallet_address),
            followers_count: self.users[idx].followers_count,
            following_count: self.users[idx].following_count,
            posts_count: self.users[idx].posts_count,
            is_active: self.users[idx].is_active,
            created_at: self.users[idx].created_at,
        };
        proof {
            assert(new_user == patched(old(self).users@[idx as int], *req));
        }
        self.users[idx] = new_user;
        proof {
            let users0 = old(self).users@;
            let users1 = self.users@;
            assert forall|a: int, b: int|
                #![trigger users1[a], users1[b]]
                0 <= a < b < users1.len() implies {
                &&& users1[a].email@ != users1[b].email@
                &&& users1[a].username@ != users1[b].username@
                &&& users1[a].user_id != users1[b].user_id
            } by {
                assert(users0[a].email@ == users1[a].email@);
                assert(users0[b].email@ == users1[b].email@);
                assert(users0[a].username@ == users1[a].username@);
                assert(users0[b].username@ == users1[b].username@);
                assert(users0[a].user_id == users1[a].user_id);
                assert(users0[b].user_id == users1[b].user_id);
            }
        }
        Ok(self.users[idx].to_response())
    }

    /// Best-effort logout: every session row holding the presented token is
    /// marked inactive; a token without a matching row changes nothing, and
    /// the operation always succeeds.
    pub fn logout(&mut self, token: &str)
        ensures
            final(self).users@ == old(self).users@,
            final(self).next_user_id == old(self).next_user_id,
            old(self).wf() ==> final(self).wf(),
            final(self).sessions@.len() == old(self).sessions@.len(),
            forall|i: int|
                0 <= i < old(self).sessions@.len() ==> final(self).sessions@[i] == (
                if old(self).sessions@[i].token@ == token@ {
                    deactivated(old(self).sessions@[i])
                } else {
                    old(self).sessions@[i]
                }),
    {
        let n = self.sessions.len();
        let mut i: usize = 0;
        while i < n
            invariant
                n == old(self).sessions@.len(),
                self.sessions@.len() == n,
                i <= n,
                self.users == old(self).users,
                self.next_user_id == old(self).next_user_id,
                forall|j: int|
                    0 <= j < i ==> self.sessions@[j] == (
                    if old(self).sessions@[j].token@ == token@ {
                        deactivated(old(self).sessions@[j])
                    } else {
                        old(self).sessions@[j]
                    }),
                forall|j: int| i <= j < n ==> self.sessions@[j] == old(self).sessions@[j],
            decreases n - i,
        {
            if str_eq(self.sessions[i].token.as_str(), token) {
                let user_id = self.sessions[i].user_id;
                let expires_at = self.sessions[i].expires_at;
                let tok = self.sessions[i].token.clone();
                self.sessions[i] = Session { user_id, token: tok, expires_at, is_active: false };
            }
            i = i + 1;
        }
    }
}

/// Finds the user row with this id, active or not.
fn find_index_by_id(users: &Vec<User>, user_id: i32) -> (r: Option<usize>)
    ensures
        (match r {
            Option::Some(k) => k < users@.len() && user_index_by_id(users@, user_id) == Some(
                k as int,
            ),
            Option::None => user_index_by_id(users@, user_id) is None,
        }),
{
    let n = users.len();
    let mut i: usize = 0;
    while i < n
        invariant
            n == users@.len(),
            i <= n,
            forall|j: int| 0 <= j < i ==> (#[trigger] users@[j]).user_id != user_id,
        decreases n - i,
    {
        if users[i].user_id == user_id {
            proof {
                lemma_first_match_index_is(users@, |u: User| u.user_id == user_id, i as int);
            }
            return Some(i);
        }
        i = i + 1;
    }
    proof {
        lemma_first_match_index_none(users@, |u: User| u.user_id == user_id);
    }
    None
}

/// Issues a fresh signed token for a user: claims minted from the wall clock
/// with the seven-day lifetime, signed under the shared secret.
pub fn create_jwt(user: &User, secret: &str) -> (r: Result<String, ApiError>)
    ensures
        (r matches Ok(t) ==> exists|now: int|
            jwt_claims(t@, secret@) == Some(
                make_claims_spec(user.user_id as int, user.email@, user.username@, now),
            )),
        (r matches Err(e) ==> e == ApiError::Internal),
{
    let now = now_unix();
    if now.checked_add(TOKEN_LIFETIME_SECS).is_none() {
        return Err(ApiError::Internal);
    }
    let claims = issue_claims(user.user_id, user.email.as_str(), user.username.as_str(), now);
    match sign_token(&claims, secret) {
        Ok(t) => {
            proof {
                assert(jwt_claims(t@, secret@) == Some(
                    make_claims_spec(user.user_id as int, user.email@, user.username@, now as int),
                ));
            }
            Ok(t)
        },
        Err(_) => Err(ApiError::Internal),
    }
}

/// Login does not disclose which of its two credential checks failed: a
/// request with an unknown email and a request with a known email but a wrong
/// password are answered with one and the same error value (and so one and
/// the same message).
pub proof fn lemma_login_uniform_error(
    users: Seq<User>,
    email1: Seq<char>,
    password1: Seq<char>,
    email2: Seq<char>,
    password2: Seq<char>,
)
    ensures
        (login_user_index(users, email1) is None && (match login_user_index(users, email2) {
            Option::Some(i) => bcrypt_check(password2, users[i].password_hash@) == Some(false),
            Option::None => false,
        })) ==> {
            &&& login_outcome(users, email1, password1) == login_outcome(users, email2, password2)
            &&& login_outcome(users, email1, password1) == Some(
                ApiError::Auth(AuthReason::InvalidCredentials),
            )
        },
{
}

/// Once a registration has added a user, a second registration that reuses
/// the email is turned away with an email conflict, and one that reuses the
/// username (under a fresh email) with a username conflict.
pub proof fn lemma_duplicate_registration_conflicts(
    users0: Seq<User>,
    u: User,
    req2: RegisterRequest,
)
    ensures
        (shape_of(req2).all_ok() && req2.email@ == u.email@) ==> register_rejection(
            users0.push(u),
            req2,
        ) == Some(ApiError::Conflict(ConflictKind::Email)),
        (shape_of(req2).all_ok() && req2.username@ == u.username@ && !email_taken(
            users0.push(u),
            req2.email@,
        )) ==> register_rejection(users0.push(u), req2) == Some(
            ApiError::Conflict(ConflictKind::Username),
        ),
{
    let users1 = users0.push(u);
    assert(users1[users0.len() as int] == u);
    if req2.email@ == u.email@ {
        assert(email_taken(users1, req2.email@));
    }
    if req2.username@ == u.username@ {
        assert(username_taken(users1, req2.username@));
    }
}

} // verus!
