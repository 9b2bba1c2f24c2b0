use memeshare::domain::{AppState, FollowRequest, RegisterUserRequest, UpdateProfileRequest};
use memeshare::errors::{ApiError, ConflictKind};

fn register(state: &mut AppState, wallet: &str, name: Option<&str>, email: Option<&str>) {
    let req = RegisterUserRequest {
        wallet_address: wallet.to_string(),
        email: email.map(|s| s.to_string()),
        name: name.map(|s| s.to_string()),
        profile_picture: None,
        bio: None,
        oauth_provider: "google".to_string(),
        oauth_id: format!("oauth-{}", wallet),
    };
    state.register_user(&req, "2024-01-01T00:00:00+00:00");
}

#[test]
fn register_user_is_idempotent_per_oauth_account() {
    let mut state = AppState::new();
    let req = RegisterUserRequest {
        wallet_address: "0xabc".to_string(),
        email: Some("a@example.com".to_string()),
        name: Some("Alice".to_string()),
        profile_picture: None,
        bio: None,
        oauth_provider: "google".to_string(),
        oauth_id: "g-1".to_string(),
    };
    let first = state.register_user(&req, "2024-01-01T00:00:00+00:00");
    assert_eq!(first.wallet_address, "0xabc");
    assert_eq!(first.followers_count, 0);
    assert_eq!(first.following_count, 0);
    assert_eq!(first.created_at, "2024-01-01T00:00:00+00:00");
    // same provider account again: returned as-is, not duplicated
    let again = state.register_user(&req, "2024-02-02T00:00:00+00:00");
    assert_eq!(again.created_at, "2024-01-01T00:00:00+00:00");
    assert_eq!(state.users.len(), 1);
    // a different provider account is a new user
    let other = RegisterUserRequest { oauth_id: "g-2".to_string(), ..req };
    state.register_user(&other, "2024-03-03T00:00:00+00:00");
    assert_eq!(state.users.len(), 2);
}

#[test]
fn search_is_case_insensitive_over_all_fields() {
    let mut state = AppState::new();
    register(&mut state, "0xAAA", Some("Doge Fan"), Some("fan@example.com"));
    register(&mut state, "0xBBB", Some("Pepe"), Some("pepe@example.com"));
    let by_name = state.search_users("DOGE");
    assert_eq!(by_name.len(), 1);
    assert_eq!(by_name[0].wallet_address, "0xAAA");
    let by_email = state.search_users("PEPE@");
    assert_eq!(by_email.len(), 1);
    assert_eq!(by_email[0].wallet_address, "0xBBB");
    let by_wallet = state.search_users("0xaaa");
    assert_eq!(by_wallet.len(), 1);
    assert_eq!(by_wallet[0].wallet_address, "0xAAA");
    assert!(state.search_users("nobody").is_empty());
}

#[test]
fn get_all_users_and_lookup_by_wallet() {
    let mut state = AppState::new();
    register(&mut state, "0xAAA", Some("Alice"), None);
    register(&mut state, "0xBBB", Some("Bob"), None);
    let all = state.get_all_users();
    assert_eq!(all.len(), 2);
    assert_eq!(all[0].wallet_address, "0xAAA");
    assert_eq!(all[1].wallet_address, "0xBBB");
    let bob = state.get_user_by_wallet("0xBBB").unwrap();
    assert_eq!(bob.name.as_deref(), Some("Bob"));
    assert_eq!(
        state.get_user_by_wallet("0xZZZ").unwrap_err(),
        ApiError::NotFound
    );
}

#[test]
fn profile_update_keeps_absent_fields() {
    let mut state = AppState::new();
    register(&mut state, "0xAAA", Some("Alice"), None);
    let updated = state
        .update_user_profile(
            "0xAAA",
            &UpdateProfileRequest {
                name: None,
                bio: Some("gm".to_string()),
                profile_picture: None,
            },
        )
        .unwrap();
    assert_eq!(updated.name.as_deref(), Some("Alice"));
    assert_eq!(updated.bio.as_deref(), Some("gm"));
    assert_eq!(
        state
            .update_user_profile(
                "0xZZZ",
                &UpdateProfileRequest { name: None, bio: None, profile_picture: None },
            )
            .unwrap_err(),
        ApiError::NotFound
    );
}

#[test]
fn follow_then_unfollow_restores_counters() {
    let mut state = AppState::new();
    register(&mut state, "0xAAA", Some("Alice"), None);
    register(&mut state, "0xBBB", Some("Bob"), None);
    let req = FollowRequest {
        follower_id: "0xAAA".to_string(),
        following_id: "0xBBB".to_string(),
    };
    state.follow_user(&req, "2024-01-01T00:00:00+00:00").unwrap();
    assert!(state.check_following("0xAAA", "0xBBB"));
    assert!(!state.check_following("0xBBB", "0xAAA"));
    assert_eq!(state.get_user_by_wallet("0xAAA").unwrap().following_count, 1);
    assert_eq!(state.get_user_by_wallet("0xBBB").unwrap().followers_count, 1);
    // a second follow of the same pair is rejected
    let err = state.follow_user(&req, "2024-01-02T00:00:00+00:00").unwrap_err();
    assert_eq!(err, ApiError::Conflict(ConflictKind::Follow));
    assert_eq!(err.message(), "Already following");
    // unfollow puts both counters back
    state.unfollow_user(&req).unwrap();
    assert!(!state.check_following("0xAAA", "0xBBB"));
    assert_eq!(state.get_user_by_wallet("0xAAA").unwrap().following_count, 0);
    assert_eq!(state.get_user_by_wallet("0xBBB").unwrap().followers_count, 0);
    assert!(state.follows.is_empty());
    // unfollowing when not following is not found
    assert_eq!(state.unfollow_user(&req).unwrap_err(), ApiError::NotFound);
}

#[test]
fn followers_and_following_lists() {
    let mut state = AppState::new();
    register(&mut state, "0xAAA", Some("Alice"), None);
    register(&mut state, "0xBBB", Some("Bob"), None);
    register(&mut state, "0xCCC", Some("Cara"), None);
    let ab = FollowRequest {
        follower_id: "0xAAA".to_string(),
        following_id: "0xBBB".to_string(),
    };
    let cb = FollowRequest {
        follower_id: "0xCCC".to_string(),
        following_id: "0xBBB".to_string(),
    };
    state.follow_user(&ab, "t1").unwrap();
    state.follow_user(&cb, "t2").unwrap();
    let followers = state.get_followers("0xBBB");
    assert_eq!(followers.len(), 2);
    assert_eq!(followers[0].wallet_address, "0xAAA");
    assert_eq!(followers[1].wallet_address, "0xCCC");
    let following = state.get_following("0xAAA");
    assert_eq!(following.len(), 1);
    assert_eq!(following[0].wallet_address, "0xBBB");
    assert!(state.get_following("0xBBB").is_empty());
    assert_eq!(state.get_user_by_wallet("0xBBB").unwrap().followers_count, 2);
}

#[test]
fn self_follow_bumps_both_counters_of_one_user() {
    let mut state = AppState::new();
    register(&mut state, "0xAAA", Some("Alice"), None);
    let req = FollowRequest {
        follower_id: "0xAAA".to_string(),
        following_id: "0xAAA".to_string(),
    };
    state.follow_user(&req, "t1").unwrap();
    let u = state.get_user_by_wallet("0xAAA").unwrap();
    assert_eq!(u.following_count, 1);
    assert_eq!(u.followers_count, 1);
    state.unfollow_user(&req).unwrap();
    let u = state.get_user_by_wallet("0xAAA").unwrap();
    assert_eq!(u.following_count, 0);
    assert_eq!(u.followers_count, 0);
}

#[test]
fn unfollow_saturates_at_zero_for_drifted_counters() {
    let mut state = AppState::new();
    // a follow edge recorded before either user registered bumps nothing
    let req = FollowRequest {
        follower_id: "0xAAA".to_string(),
        following_id: "0xBBB".to_string(),
    };
    state.follow_user(&req, "t1").unwrap();
    register(&mut state, "0xAAA", Some("Alice"), None);
    register(&mut state, "0xBBB", Some("Bob"), None);
    // both counters start at zero and must not go negative on unfollow
    state.unfollow_user(&req).unwrap();
    assert_eq!(state.get_user_by_wallet("0xAAA").unwrap().following_count, 0);
    assert_eq!(state.get_user_by_wallet("0xBBB").unwrap().followers_count, 0);
}
