use vstd::prelude::*;
use crate::domain::{
    only_social_differs, only_users_differ, AppState, Follow, FollowRequest, RegisterUserRequest,
    UpdateProfileRequest, User,
};
use crate::errors::{ApiError, ConflictKind};
use crate::seqtools::{
    first_match_index, lemma_filter_all_kept, lemma_filter_push, lemma_filter_take_step,
    lemma_first_match_index_is, lemma_first_match_index_none,
};
use crate::text::{clone_opt_string, has_substring, lower_of, str_contains, str_eq, to_lower};

verus! {

/// Index of the first user owning this wallet address, if any.
pub open spec fn wallet_index(users: Seq<User>, wallet: Seq<char>) -> Option<int> {
    first_match_index(users, |u: User| u.wallet_address@ == wallet)
}

/// What `wallet_index` finds: a row owning the wallet, the earliest one.
pub proof fn lemma_wallet_index_props(users: Seq<User>, wallet: Seq<char>)
    ensures
        match wallet_index(users, wallet) {
            Option::None => forall|j: int|
                0 <= j < users.len() ==> (#[trigger] users[j]).wallet_address@ != wallet,
            Option::Some(i) => 0 <= i < users.len() && users[i].wallet_address@ == wallet && (
            forall|j: int| 0 <= j < i ==> (#[trigger] users[j]).wallet_address@ != wallet),
        },
    decreases users.len(),
{
    if users.len() > 0 && users[0].wallet_address@ != wallet {
        let rest = users.drop_first();
        lemma_wallet_index_props(rest, wallet);
        match wallet_index(rest, wallet) {
            Option::None => {
                assert forall|j: int| 0 <= j < users.len() implies (#[trigger] users[j]).wallet_address@
                    != wallet by {
                    if j > 0 {
                        assert(rest[j - 1] == users[j]);
                    }
                }
            },
            Option::Some(i) => {
                assert(users[i + 1] == rest[i]);
                assert forall|j: int| 0 <= j < i + 1 implies (#[trigger] users[j]).wallet_address@
                    != wallet by {
                    if j > 0 {
                        assert(rest[j - 1] == users[j]);
                    }
                }
            },
        }
    }
}

/// Two user collections with the same wallet column are searched alike.
pub proof fn lemma_wallet_index_congruent(x: Seq<User>, y: Seq<User>, wallet: Seq<char>)
    requires
        x.len() == y.len(),
        forall|j: int|
            0 <= j < x.len() ==> (#[trigger] x[j]).wallet_address@ == y[j].wallet_address@,
    ensures
        wallet_index(x, wallet) == wallet_index(y, wallet),
    decreases x.len(),
{
    if x.len() > 0 && x[0].wallet_address@ != wallet {
        let rx = x.drop_first();
        let ry = y.drop_first();
        assert forall|j: int| 0 <= j < rx.len() implies (#[trigger] rx[j]).wallet_address@
            == ry[j].wallet_address@ by {
            assert(rx[j] == x[j + 1]);
            assert(ry[j] == y[j + 1]);
        }
        lemma_wallet_index_congruent(rx, ry, wallet);
    }
}

/// A user already registered through this identity-provider account.
pub open spec fn is_oauth_match(u: User, provider: Seq<char>, oauth_id: Seq<char>) -> bool {
    u.oauth_id@ == oauth_id && u.oauth_provider@ == provider
}

/// Index of the user registered through this identity-provider account.
pub open spec fn oauth_index(users: Seq<User>, provider: Seq<char>, oauth_id: Seq<char>) -> Option<
    int,
> {
    first_match_index(users, |u: User| is_oauth_match(u, provider, oauth_id))
}

/// Whether a user matches a search query (already lowercased): a
/// case-insensitive substring of the email, the name, or the wallet address.
pub open spec fn user_matches_query(u: User, lowered_query: Seq<char>) -> bool {
    ||| (u.email matches Some(e) && has_substring(lower_of(e@), lowered_query))
    ||| (u.name matches Some(nm) && has_substring(lower_of(nm@), lowered_query))
    ||| has_substring(lower_of(u.wallet_address@), lowered_query)
}

/// A user row after a partial profile update: present request fields
/// overwrite, absent ones keep the stored value.
pub open spec fn patched_user(u: User, req: UpdateProfileRequest) -> User {
    User {
        name: crate::authstore::coalesce(req.name, u.name),
        bio: crate::authstore::coalesce(req.bio, u.bio),
        profile_picture: crate::authstore::coalesce(req.profile_picture, u.profile_picture),
        ..u
    }
}

/// Finds the first user owning this wallet address.
pub(crate) fn find_wallet_index(users: &Vec<User>, wallet: &str) -> (r: Option<usize>)
    ensures
        (match r {
            Option::Some(k) => k < users@.len() && wallet_index(users@, wallet@) == Some(k as int),
            Option::None => wallet_index(users@, wallet@) is None,
        }),
{
    let n = users.len();
    let mut i: usize = 0;
    while i < n
        invariant
            n == users@.len(),
            i <= n,
            forall|j: int| 0 <= j < i ==> (#[trigger] users@[j]).wallet_address@ != wallet@,
        decreases n - i,
    {
        if str_eq(users[i].wallet_address.as_str(), wallet) {
            proof {
                lemma_first_match_index_is(
                    users@,
                    |u: User| u.wallet_address@ == wallet@,
                    i as int,
                );
            }
            return Some(i);
        }
        i = i + 1;
    }
    proof {
        lemma_first_match_index_none(users@, |u: User| u.wallet_address@ == wallet@);
    }
    None
}

/// Whether this user matches the (already lowercased) search query.
fn user_matches(u: &User, lowered_query: &str) -> (r: bool)
    ensures
        r == user_matches_query(*u, lowered_query@),
{
    let email_hit = match &u.email {
        Some(e) => {
            let le = to_lower(e.as_str());
            str_contains(le.as_str(), lowered_query)
        },
        None => false,
    };
    if email_hit {
        return true;
    }
    let name_hit = match &u.name {
        Some(nm) => {
            let ln = to_lower(nm.as_str());
            str_contains(ln.as_str(), lowered_query)
        },
        None => false,
    };
    if name_hit {
        return true;
    }
    let lw = to_lower(u.wallet_address.as_str());
    str_contains(lw.as_str(), lowered_query)
}

impl AppState {
    /// Registers an in-memory user.  A user already known through the same
    /// identity-provider account is simply returned; otherwise a fresh row
    /// with zeroed counters is appended and returned.
    pub fn register_user(&mut self, req: &RegisterUserRequest, created_at: &str) -> (r: User)
        requires
            old(self).wf(),
        ensures
            final(self).wf(),
            only_users_differ(*old(self), *final(self)),
            (match oauth_index(old(self).users@, req.oauth_provider@, req.oauth_id@) {
                Option::Some(i) => final(self).users@ == old(self).users@
                    && r == old(self).users@[i],
                Option::None => {
                    &&& final(self).users@ == old(self).users@.push(r)
                    &&& r.wallet_address@ == req.wallet_address@
                    &&& r.email == req.email
                    &&& r.name == req.name
                    &&& r.profile_picture == req.profile_picture
                    &&& r.bio == req.bio
                    &&& r.oauth_provider@ == req.oauth_provider@
                    &&& r.oauth_id@ == req.oauth_id@
                    &&& r.created_at@ == created_at@
                    &&& r.followers_count == 0
                    &&& r.following_count == 0
                },
            }),
    {
        let found = find_oauth_index(&self.users, req.oauth_provider.as_str(), req.oauth_id.as_str());
        match found {
            Some(i) => self.users[i].duplicate(),
            None => {
                let user = User {
                    wallet_address: req.wallet_address.clone(),
                    email: clone_opt_string(&req.email),
                    name: clone_opt_string(&req.name),
                    profile_picture: clone_opt_string(&req.profile_picture),
                    bio: clone_opt_string(&req.bio),
                    oauth_provider: req.oauth_provider.clone(),
                    oauth_id: req.oauth_id.clone(),
                    created_at: created_at.to_owned(),
                    followers_count: 0,
                    following_count: 0,
                };
                let r = user.duplicate();
                self.users.push(user);
                r
            },
        }
    }

    /// Case-insensitive user search over email, display name and wallet
    /// address.
    pub fn search_users(&self, query: &str) -> (r: Vec<User>)
        ensures
            r@ == self.users@.filter(|u: User| user_matches_query(u, lower_of(query@))),
    {
        let lq = to_lower(query);
        let n = self.users.len();
        let mut out: Vec<User> = Vec::new();
        let mut i: usize = 0;
        proof {
            assert(self.users@.take(0).filter(|u: User| user_matches_query(u, lower_of(query@)))
                =~= Seq::<User>::empty());
        }
        while i < n
            invariant
                n == self.users@.len(),
                i <= n,
                lq@ == lower_of(query@),
                out@ == self.users@.take(i as int).filter(
                    |u: User| user_matches_query(u, lower_of(query@)),
                ),
            decreases n - i,
        {
            proof {
                lemma_filter_take_step(
                    self.users@,
                    |u: User| user_matches_query(u, lower_of(query@)),
                    i as int,
                );
            }
            if user_matches(&self.users[i], lq.as_str()) {
                out.push(self.users[i].duplicate());
            }
            i = i + 1;
        }
        proof {
            assert(self.users@.take(n as int) =~= self.users@);
        }
        out
    }

    /// Every stored user, in insertion order.
    pub fn get_all_users(&self) -> (r: Vec<User>)
        ensures
            r@ == self.users@,
    {
        let n = self.users.len();
        let mut out: Vec<User> = Vec::new();
        let mut i: usize = 0;
        while i < n
            invariant
                n == self.users@.len(),
                i <= n,
                out@ == self.users@.take(i as int),
            decreases n - i,
        {
            out.push(self.users[i].duplicate());
            proof {
                assert(self.users@.take(i + 1) =~= self.users@.take(i as int).push(
                    self.users@[i as int],
                ));
            }
            i = i + 1;
        }
        proof {
            assert(self.users@.take(n as int) =~= self.users@);
        }
        out
    }

    /// The user owning this wallet address, or not found.
    pub fn get_user_by_wallet(&self, wallet: &str) -> (r: Result<User, ApiError>)
        ensures
            (match wallet_index(self.users@, wallet@) {
                Option::Some(i) => r matches Ok(u) && u == self.users@[i],
                Option::None => r == Err::<User, ApiError>(ApiError::NotFound),
            }),
    {
        match find_wallet_index(&self.users, wallet) {
            Some(i) => Ok(self.users[i].duplicate()),
            None => Err(ApiError::NotFound),
        }
    }

    /// Partial profile update for the user owning this wallet address:
    /// present request fields overwrite, absent ones are kept; the updated
    /// row is returned.
    pub fn update_user_profile(&mut self, wallet: &str, req: &UpdateProfileRequest) -> (r: Result<
        User,
        ApiError,
    >)
        requires
            old(self).wf(),
        ensures
            final(self).wf(),
            only_users_differ(*old(self), *final(self)),
            (match wallet_index(old(self).users@, wallet@) {
                Option::None => r == Err::<User, ApiError>(ApiError::NotFound)
                    && final(self).users@ == old(self).users@,
                Option::Some(i) => {
                    &&& final(self).users@ == old(self).users@.update(
                        i,
                        patched_user(old(self).users@[i], *req),
                    )
                    &&& r matches Ok(u) && u == patched_user(old(self).users@[i], *req)
                },
            }),
    {
        let idx = match find_wallet_index(&self.users, wallet) {
            Some(idx) => idx,
            None => {
                return Err(ApiError::NotFound);
            },
        };
        let name = match &req.name {
            Some(s) => Some(s.clone()),
            None => clone_opt_string(&self.users[idx].name),
        };
        let bio = match &req.bio {
            Some(s) => Some(s.clone()),
            None => clone_opt_string(&self.users[idx].bio),
        };
        let profile_picture = match &req.profile_picture {
            Some(s) => Some(s.clone()),
            None => clone_opt_string(&self.users[idx].profile_picture),
        };
        let new_user = User {
            wallet_address: self.users[idx].wallet_address.clone(),
            email: clone_opt_string(&self.users[idx].email),
            name,
            profile_picture,
            bio,
            oauth_provider: self.users[idx].oauth_provider.clone(),
            oauth_id: self.users[idx].oauth_id.clone(),
            created_at: self.users[idx].created_at.clone(),
            followers_count: self.users[idx].followers_count,
            following_count: self.users[idx].following_count,
        };
        proof {
            assert(new_user == patched_user(old(self).users@[idx as int], *req));
        }
        let r = new_user.duplicate();
        self.users[idx] = new_user;
        Ok(r)
    }
}

/// Finds the user registered through this identity-provider account.
fn find_oauth_index(users: &Vec<User>, provider: &str, oauth_id: &str) -> (r: Option<usize>)
    ensures
        (match r {
            Option::Some(k) => k < users@.len() && oauth_index(users@, provider@, oauth_id@)
                == Some(k as int),
            Option::None => oauth_index(users@, provider@, oauth_id@) is None,
        }),
{
    let n = users.len();
    let mut i: usize = 0;
    while i < n
        invariant
            n == users@.len(),
            i <= n,
            forall|j: int|
                0 <= j < i ==> !is_oauth_match(#[trigger] users@[j], provider@, oauth_id@),
        decreases n - i,
    {
        if str_eq(users[i].oauth_id.as_str(), oauth_id) && str_eq(
            users[i].oauth_provider.as_str(),
            provider,
        ) {
            proof {
                lemma_first_match_index_is(
                    users@,
                    |u: User| is_oauth_match(u, provider@, oauth_id@),
                    i as int,
                );
            }
            return Some(i);
        }
        i = i + 1;
    }
    proof {
        lemma_first_match_index_none(users@, |u: User| is_oauth_match(u, provider@, oauth_id@));
    }
    None
}

/// One follow edge links `follower` to `following`.
pub open spec fn is_follow_pair(f: Follow, follower: Seq<char>, following: Seq<char>) -> bool {
    f.follower_id@ == follower && f.following_id@ == following
}

/// The graph already holds this follow edge.
pub open spec fn following_exists(
    follows: Seq<Follow>,
    follower: Seq<char>,
    following: Seq<char>,
) -> bool {
    exists|i: int|
        0 <= i < follows.len() && is_follow_pair(#[trigger] follows[i], follower, following)
}

/// The user collection after the wallet's owner (if stored) gains one more
/// account being followed.
pub open spec fn bump_following(users: Seq<User>, wallet: Seq<char>) -> Seq<User> {
    match wallet_index(users, wallet) {
        Option::None => users,
        Option::Some(i) => users.update(
            i,
            User { following_count: (users[i].following_count + 1) as i32, ..users[i] },
        ),
    }
}

/// The user collection after the wallet's owner (if stored) gains one more
/// follower.
pub open spec fn bump_followers(users: Seq<User>, wallet: Seq<char>) -> Seq<User> {
    match wallet_index(users, wallet) {
        Option::None => users,
        Option::Some(i) => users.update(
            i,
            User { followers_count: (users[i].followers_count + 1) as i32, ..users[i] },
        ),
    }
}

/// The user collection after the wallet's owner (if stored) loses one
/// account being followed; the counter never goes below zero.
pub open spec fn drop_following(users: Seq<User>, wallet: Seq<char>) -> Seq<User> {
    match wallet_index(users, wallet) {
        Option::None => users,
        Option::Some(i) => users.update(
            i,
            User {
                following_count: if users[i].following_count >= 1 {
                    (users[i].following_count - 1) as i32
                } else {
                    0i32
                },
                ..users[i]
            },
        ),
    }
}

/// The user collection after the wallet's owner (if stored) loses one
/// follower; the counter never goes below zero.
pub open spec fn drop_followers(users: Seq<User>, wallet: Seq<char>) -> Seq<User> {
    match wallet_index(users, wallet) {
        Option::None => users,
        Option::Some(i) => users.update(
            i,
            User {
                followers_count: if users[i].followers_count >= 1 {
                    (users[i].followers_count - 1) as i32
                } else {
                    0i32
                },
                ..users[i]
            },
        ),
    }
}

/// Whether the graph holds this follow edge.
fn follow_exists(follows: &Vec<Follow>, follower: &str, following: &str) -> (r: bool)
    ensures
        r == following_exists(follows@, follower@, following@),
{
    let n = follows.len();
    let mut i: usize = 0;
    while i < n
        invariant
            n == follows@.len(),
            i <= n,
            forall|j: int|
                0 <= j < i ==> !is_follow_pair(#[trigger] follows@[j], follower@, following@),
        decreases n - i,
    {
        if str_eq(follows[i].follower_id.as_str(), follower) && str_eq(
            follows[i].following_id.as_str(),
            following,
        ) {
            proof {
                assert(is_follow_pair(follows@[i as int], follower@, following@));
            }
            return true;
        }
        i = i + 1;
    }
    false
}

/// The follow collection with every edge for this pair removed.
fn follows_without_pair(follows: &Vec<Follow>, follower: &str, following: &str) -> (r: Vec<Follow>)
    ensures
        r@ == follows@.filter(|f: Follow| !is_follow_pair(f, follower@, following@)),
{
    let n = follows.len();
    let mut out: Vec<Follow> = Vec::new();
    let mut i: usize = 0;
    proof {
        assert(follows@.take(0).filter(|f: Follow| !is_follow_pair(f, follower@, following@))
            =~= Seq::<Follow>::empty());
    }
    while i < n
        invariant
            n == follows@.len(),
            i <= n,
            out@ == follows@.take(i as int).filter(
                |f: Follow| !is_follow_pair(f, follower@, following@),
            ),
        decreases n - i,
    {
        proof {
            lemma_filter_take_step(
                follows@,
                |f: Follow| !is_follow_pair(f, follower@, following@),
                i as int,
            );
        }
        let matches_pair = str_eq(follows[i].follower_id.as_str(), follower) && str_eq(
            follows[i].following_id.as_str(),
            following,
        );
        if !matches_pair {
            out.push(follows[i].duplicate());
        }
        i = i + 1;
    }
    proof {
        assert(follows@.take(n as int) =~= follows@);
    }
    out
}

/// An exact copy of a user, with fresh counter values.
fn user_with_counts(u: &User, followers: i32, following: i32) -> (r: User)
    ensures
        r == (User { followers_count: followers, following_count: following, ..*u }),
{
    User {
        wallet_address: u.wallet_address.clone(),
        email: clone_opt_string(&u.email),
        name: clone_opt_string(&u.name),
        profile_picture: clone_opt_string(&u.profile_picture),
        bio: clone_opt_string(&u.bio),
        oauth_provider: u.oauth_provider.clone(),
        oauth_id: u.oauth_id.clone(),
        created_at: u.created_at.clone(),
        followers_count: followers,
        following_count: following,
    }
}

impl AppState {
    /// Follows one user from another.  A duplicate edge is rejected; on
    /// success the edge is stored and both parties' denormalized counters
    /// grow by one (when the party is a stored user).
    pub fn follow_user(&mut self, req: &FollowRequest, created_at: &str) -> (r: Result<
        (),
        ApiError,
    >)
        requires
            old(self).wf(),
            forall|i: int|
                0 <= i < old(self).users@.len() ==> (#[trigger] old(
                    self,
                ).users@[i]).following_count < i32::MAX && old(self).users@[i].followers_count
                    < i32::MAX,
        ensures
            final(self).wf(),
            only_social_differs(*old(self), *final(self)),
            (if following_exists(old(self).follows@, req.follower_id@, req.following_id@) {
                r == Err::<(), ApiError>(ApiError::Conflict(ConflictKind::Follow)) && *final(self)
                    == *old(self)
            } else {
                &&& r == Ok::<(), ApiError>(())
                &&& final(self).follows@ == old(self).follows@.push(final(self).follows@.last())
                &&& is_follow_pair(
                    final(self).follows@.last(),
                    req.follower_id@,
                    req.following_id@,
                )
                &&& final(self).follows@.last().created_at@ == created_at@
                &&& final(self).users@ == bump_followers(
                    bump_following(old(self).users@, req.follower_id@),
                    req.following_id@,
                )
            }),
    {
        if follow_exists(&self.follows, req.follower_id.as_str(), req.following_id.as_str()) {
            return Err(ApiError::Conflict(ConflictKind::Follow));
        }
        self.follows.push(
            Follow {
                follower_id: req.follower_id.clone(),
                following_id: req.following_id.clone(),
                created_at: created_at.to_owned(),
            },
        );
        let ghost users0 = self.users@;
        match find_wallet_index(&self.users, req.follower_id.as_str()) {
            Some(i) => {
                let bumped = user_with_counts(
                    &self.users[i],
                    self.users[i].followers_count,
                    self.users[i].following_count + 1,
                );
                self.users[i] = bumped;
            },
            None => {},
        }
        proof {
            assert(self.users@ =~= bump_following(users0, req.follower_id@));
        }
        let ghost users1 = self.users@;
        proof {
            assert forall|j: int| 0 <= j < users1.len() implies (#[trigger] users1[j]).wallet_address@
                == users0[j].wallet_address@ && users1[j].followers_count
                == users0[j].followers_count by {}
            lemma_wallet_index_congruent(users1, users0, req.following_id@);
        }
        match find_wallet_index(&self.users, req.following_id.as_str()) {
            Some(i) => {
                let bumped = user_with_counts(
                    &self.users[i],
                    self.users[i].followers_count + 1,
                    self.users[i].following_count,
                );
                self.users[i] = bumped;
            },
            None => {},
        }
        proof {
            assert(self.users@ =~= bump_followers(users1, req.following_id@));
        }
        Ok(())
    }

    /// Unfollows one user from another.  A missing edge is not found; on
    /// success the edge is removed and both parties' counters shrink by one,
    /// saturating at zero.
    pub fn unfollow_user(&mut self, req: &FollowRequest) -> (r: Result<(), ApiError>)
        requires
            old(self).wf(),
        ensures
            final(self).wf(),
            only_social_differs(*old(self), *final(self)),
            (if !following_exists(old(self).follows@, req.follower_id@, req.following_id@) {
                r == Err::<(), ApiError>(ApiError::NotFound) && *final(self) == *old(self)
            } else {
                &&& r == Ok::<(), ApiError>(())
                &&& final(self).follows@ == old(self).follows@.filter(
                    (|f: Follow| !is_follow_pair(f, req.follower_id@, req.following_id@)),
                )
                &&& final(self).users@ == drop_followers(
                    drop_following(old(self).users@, req.follower_id@),
                    req.following_id@,
                )
            }),
    {
        if !follow_exists(&self.follows, req.follower_id.as_str(), req.following_id.as_str()) {
            return Err(ApiError::NotFound);
        }
        let kept = follows_without_pair(
            &self.follows,
            req.follower_id.as_str(),
            req.following_id.as_str(),
        );
        self.follows = kept;
        let ghost users0 = self.users@;
        match find_wallet_index(&self.users, req.follower_id.as_str()) {
            Some(i) => {
                let c = self.users[i].following_count;
                let dropped = user_with_counts(
                    &self.users[i],
                    self.users[i].followers_count,
                    if c >= 1 {
                        c - 1
                    } else {
                        0
                    },
                );
                self.users[i] = dropped;
            },
            None => {},
        }
        proof {
            assert(self.users@ =~= drop_following(users0, req.follower_id@));
        }
        let ghost users1 = self.users@;
        proof {
            assert forall|j: int| 0 <= j < users1.len() implies (#[trigger] users1[j]).wallet_address@
                == users0[j].wallet_address@ && users1[j].followers_count
                == users0[j].followers_count by {}
            lemma_wallet_index_congruent(users1, users0, req.following_id@);
        }
        match find_wallet_index(&self.users, req.following_id.as_str()) {
            Some(i) => {
                let c = self.users[i].followers_count;
                let dropped = user_with_counts(
                    &self.users[i],
                    if c >= 1 {
                        c - 1
                    } else {
                        0
                    },
                    self.users[i].following_count,
                );
                self.users[i] = dropped;
            },
            None => {},
        }
        proof {
            assert(self.users@ =~= drop_followers(users1, req.following_id@));
        }
        Ok(())
    }

    /// Whether the first user follows the second.
    pub fn check_following(&self, follower: &str, following: &str) -> (r: bool)
        ensures
            r == following_exists(self.follows@, follower@, following@),
    {
        follow_exists(&self.follows, follower, following)
    }

    /// Every stored user who follows the given one.
    pub fn get_followers(&self, user_id: &str) -> (r: Vec<User>)
        ensures
            r@ == self.users@.filter(
                |u: User| following_exists(self.follows@, u.wallet_address@, user_id@),
            ),
    {
        let n = self.users.len();
        let mut out: Vec<User> = Vec::new();
        let mut i: usize = 0;
        proof {
            assert(self.users@.take(0).filter(
                |u: User| following_exists(self.follows@, u.wallet_address@, user_id@),
            ) =~= Seq::<User>::empty());
        }
        while i < n
            invariant
                n == self.users@.len(),
                i <= n,
                out@ == self.users@.take(i as int).filter(
                    |u: User| following_exists(self.follows@, u.wallet_address@, user_id@),
                ),
            decreases n - i,
        {
            proof {
                lemma_filter_take_step(
                    self.users@,
                    |u: User| following_exists(self.follows@, u.wallet_address@, user_id@),
                    i as int,
                );
            }
            if follow_exists(&self.follows, self.users[i].wallet_address.as_str(), user_id) {
                out.push(self.users[i].duplicate());
            }
            i = i + 1;
        }
        proof {
            assert(self.users@.take(n as int) =~= self.users@);
        }
        out
    }

    /// Every stored user whom the given one follows.
    pub fn get_following(&self, user_id: &str) -> (r: Vec<User>)
        ensures
            r@ == self.users@.filter(
                |u: User| following_exists(self.follows@, user_id@, u.wallet_address@),
            ),
    {
        let n = self.users.len();
        let mut out: Vec<User> = Vec::new();
        let mut i: usize = 0;
        proof {
            assert(self.users@.take(0).filter(
                |u: User| following_exists(self.follows@, user_id@, u.wallet_address@),
            ) =~= Seq::<User>::empty());
        }
        while i < n
            invariant
                n == self.users@.len(),
                i <= n,
                out@ == self.users@.take(i as int).filter(
                    |u: User| following_exists(self.follows@, user_id@, u.wallet_address@),
                ),
            decreases n - i,
        {
            proof {
                lemma_filter_take_step(
                    self.users@,
                    |u: User| following_exists(self.follows@, user_id@, u.wallet_address@),
                    i as int,
                );
            }
            if follow_exists(&self.follows, user_id, self.users[i].wallet_address.as_str()) {
                out.push(self.users[i].duplicate());
            }
            i = i + 1;
        }
        proof {
            assert(self.users@.take(n as int) =~= self.users@);
        }
        out
    }
}

/// Following and then unfollowing the same pair puts the state back exactly
/// where it started: the edge the follow added is the one the unfollow
/// removes, and both parties' counters return to their old values.  And a
/// second follow of a pair already present is rejected, because the edge is
/// there.
pub proof fn lemma_follow_then_unfollow_restores(users: Seq<User>, follows: Seq<Follow>, f: Follow)
    ensures
        ((!following_exists(follows, f.follower_id@, f.following_id@)) && (forall|i: int|
            0 <= i < users.len() ==> 0 <= (#[trigger] users[i]).following_count < i32::MAX && 0
                <= users[i].followers_count < i32::MAX)) ==> {
            &&& follows.push(f).filter(
                (|g: Follow| !is_follow_pair(g, f.follower_id@, f.following_id@)),
            ) == follows
            &&& following_exists(follows.push(f), f.follower_id@, f.following_id@)
            &&& drop_followers(
                drop_following(
                    bump_followers(bump_following(users, f.follower_id@), f.following_id@),
                    f.follower_id@,
                ),
                f.following_id@,
            ) == users
        },
{
    let a = f.follower_id@;
    let b = f.following_id@;
    if (!following_exists(follows, a, b)) && (forall|i: int|
        0 <= i < users.len() ==> 0 <= (#[trigger] users[i]).following_count < i32::MAX && 0
            <= users[i].followers_count < i32::MAX) {
        lemma_filter_push(follows, |g: Follow| !is_follow_pair(g, a, b), f);
        assert forall|j: int| 0 <= j < follows.len() implies (|g: Follow|
            !is_follow_pair(g, a, b))(follows[j]) by {
            assert(!is_follow_pair(follows[j], a, b));
        }
        lemma_filter_all_kept(follows, |g: Follow| !is_follow_pair(g, a, b));
        assert(follows.push(f)[follows.len() as int] == f);
        assert(is_follow_pair(f, a, b));
        assert(following_exists(follows.push(f), a, b));
        let u1 = bump_following(users, a);
        let u2 = bump_followers(u1, b);
        lemma_counter_updates_cancel(users, u1, u2, a, b);
    }
}

/// The counter bookkeeping of a follow is undone exactly by the counter
/// bookkeeping of the matching unfollow.
proof fn lemma_counter_updates_cancel(
    users: Seq<User>,
    u1: Seq<User>,
    u2: Seq<User>,
    a: Seq<char>,
    b: Seq<char>,
)
    requires
        forall|i: int|
            0 <= i < users.len() ==> 0 <= (#[trigger] users[i]).following_count < i32::MAX && 0
                <= users[i].followers_count < i32::MAX,
        u1 == bump_following(users, a),
        u2 == bump_followers(u1, b),
    ensures
        drop_followers(drop_following(u2, a), b) == users,
{
    let oa = wallet_index(users, a);
    let ob = wallet_index(users, b);
    lemma_wallet_index_props(users, a);
    lemma_wallet_index_props(users, b);
    match oa {
        Option::None => {
            assert(u1 == users);
        },
        Option::Some(ia) => {
            assert(0 <= ia < users.len());
            assert(u1 == users.update(
                ia,
                User { following_count: (users[ia].following_count + 1) as i32, ..users[ia] },
            ));
        },
    }
    // the first bump keeps lengths, wallets and follower counts
    assert(u1.len() == users.len());
    assert forall|j: int| 0 <= j < u1.len() implies (#[trigger] u1[j]).wallet_address@
        == users[j].wallet_address@ && u1[j].followers_count == users[j].followers_count by {
        if oa is Some {
            let ia = oa.unwrap();
            if j != ia {
                assert(u1[j] == users[j]);
            }
        } else {
            assert(u1[j] == users[j]);
        }
    }
    lemma_wallet_index_congruent(u1, users, a);
    lemma_wallet_index_congruent(u1, users, b);
    assert(wallet_index(u1, a) == oa);
    assert(wallet_index(u1, b) == ob);
    // the second bump keeps lengths, wallets and following counts
    assert(u2.len() == users.len());
    assert forall|j: int| 0 <= j < u2.len() implies (#[trigger] u2[j]).wallet_address@
        == users[j].wallet_address@ && u2[j].following_count == u1[j].following_count by {
        if ob is Some {
            let ib = ob.unwrap();
            if j != ib {
                assert(u2[j] == u1[j]);
            }
        } else {
            assert(u2[j] == u1[j]);
        }
    }
    lemma_wallet_index_congruent(u2, users, a);
    lemma_wallet_index_congruent(u2, users, b);
    assert(wallet_index(u2, a) == oa);
    assert(wallet_index(u2, b) == ob);
    let u3 = drop_following(u2, a);
    assert(u3.len() == users.len());
    assert forall|j: int| 0 <= j < u3.len() implies (#[trigger] u3[j]).wallet_address@
        == users[j].wallet_address@ by {
        if oa is Some {
            let ia = oa.unwrap();
            if j != ia {
                assert(u3[j] == u2[j]);
            }
        } else {
            assert(u3[j] == u2[j]);
        }
    }
    lemma_wallet_index_congruent(u3, users, b);
    assert(wallet_index(u3, b) == ob);
    let u4 = drop_followers(u3, b);
    assert forall|j: int| 0 <= j < users.len() implies u4[j] == users[j] by {
        match (oa, ob) {
            (Option::None, Option::None) => {
                assert(u4[j] == users[j]);
            },
            (Option::None, Option::Some(ib)) => {
                // only the follower-count of `ib` moved, up then down
                if j != ib {
                    assert(u4[j] == users[j]);
                } else {
                    assert(u2[ib].followers_count == users[ib].followers_count + 1);
                    assert(u3[ib] == u2[ib]);
                    assert(u4[ib].followers_count == users[ib].followers_count);
                    assert(u4[ib] == users[ib]);
                }
            },
            (Option::Some(ia), Option::None) => {
                if j != ia {
                    assert(u4[j] == users[j]);
                } else {
                    assert(u1[ia].following_count == users[ia].following_count + 1);
                    assert(u2[ia] == u1[ia]);
                    assert(u3[ia].following_count == users[ia].following_count);
                    assert(u4[ia] == u3[ia]);
                    assert(u4[ia] == users[ia]);
                }
            },
            (Option::Some(ia), Option::Some(ib)) => {
                if j != ia && j != ib {
                    assert(u4[j] == users[j]);
                } else if ia == ib {
                    if j == ia {
                        assert(u1[ia].following_count == users[ia].following_count + 1);
                        assert(u1[ia].followers_count == users[ia].followers_count);
                        assert(u2[ia].followers_count == users[ia].followers_count + 1);
                        assert(u2[ia].following_count == users[ia].following_count + 1);
                        assert(u3[ia].following_count == users[ia].following_count);
                        assert(u3[ia].followers_count == users[ia].followers_count + 1);
                        assert(u4[ia].followers_count == users[ia].followers_count);
                        assert(u4[ia].following_count == users[ia].following_count);
                        assert(u4[ia] == users[ia]);
                    }
                } else {
                    if j == ia {
                        assert(u1[ia].following_count == users[ia].following_count + 1);
                        assert(u2[ia] == u1[ia]);
                        assert(u3[ia].following_count == users[ia].following_count);
                        assert(u3[ia].followers_count == users[ia].followers_count);
                        assert(u4[ia] == u3[ia]);
                        assert(u4[ia] == users[ia]);
                    } else {
                        assert(u1[ib] == users[ib]);
                        assert(u2[ib].followers_count == users[ib].followers_count + 1);
                        assert(u3[ib] == u2[ib]);
                        assert(u4[ib].followers_count == users[ib].followers_count);
                        assert(u4[ib] == users[ib]);
                    }
                }
            },
        }
    }
    assert(u4 =~= users);
}

} // verus!
