use memeshare::domain::{AddCommentRequest, AppState, FollowRequest};
use memeshare::errors::ApiError;

fn post(state: &mut AppState, caption: &str, owner: Option<&str>, created_at: &str) -> i32 {
    let meme = state.add_meme(
        caption.to_string(),
        "tags".to_string(),
        "http://example.com/img.jpg".to_string(),
        owner.map(|s| s.to_string()),
        created_at.to_string(),
    );
    meme.id
}

#[test]
fn add_meme_assigns_ids_and_defaults() {
    let mut state = AppState::new();
    let a = post(&mut state, "first", Some("0xAAA"), "2024-01-01T00:00:00+00:00");
    let b = post(&mut state, "second", None, "2024-01-02T00:00:00+00:00");
    assert_eq!(a, 1);
    assert_eq!(b, 2);
    assert_eq!(state.memes.len(), 2);
    assert_eq!(state.memes[0].caption, "first");
    assert_eq!(state.memes[0].media_type, "image");
    assert_eq!(state.memes[0].likes, 0);
    assert_eq!(state.memes[0].comment_count, 0);
    assert!(!state.memes[0].is_liked);
    assert!(state.memes[0].video.is_none());
}

#[test]
fn likes_increment_and_unknown_posts_are_not_found() {
    let mut state = AppState::new();
    let a = post(&mut state, "a", None, "t");
    let liked = state.like_meme(a).unwrap();
    assert_eq!(liked.likes, 1);
    let liked = state.like_meme(a).unwrap();
    assert_eq!(liked.likes, 2);
    assert_eq!(state.memes[0].likes, 2);
    assert_eq!(state.like_meme(999).unwrap_err(), ApiError::NotFound);
}

#[test]
fn global_feed_orders_by_likes_plus_comments() {
    let mut state = AppState::new();
    let a = post(&mut state, "post a", Some("0xAAA"), "2024-01-01T00:00:00+00:00");
    let b = post(&mut state, "post b", Some("0xBBB"), "2024-01-02T00:00:00+00:00");
    // post a: 12 likes and 3 comments (score 15)
    for _ in 0..12 {
        state.like_meme(a).unwrap();
    }
    for k in 0..3 {
        state.add_comment(
            a,
            &AddCommentRequest {
                user_id: "0xCCC".to_string(),
                text: format!("comment {}", k),
            },
            "2024-01-03T00:00:00+00:00",
        );
    }
    // post b: 8 likes and 1 comment (score 9)
    for _ in 0..8 {
        state.like_meme(b).unwrap();
    }
    state.add_comment(
        b,
        &AddCommentRequest { user_id: "0xCCC".to_string(), text: "one".to_string() },
        "2024-01-03T00:00:00+00:00",
    );
    let feed = state.get_memes();
    assert_eq!(feed.len(), 2);
    assert_eq!(feed[0].id, a);
    assert_eq!(feed[0].likes, 12);
    assert_eq!(feed[0].comment_count, 3);
    assert_eq!(feed[1].id, b);
    assert_eq!(feed[1].likes, 8);
    assert_eq!(feed[1].comment_count, 1);
}

#[test]
fn comments_attach_to_posts_and_users() {
    let mut state = AppState::new();
    state.register_user(
        &memeshare::domain::RegisterUserRequest {
            wallet_address: "0xCCC".to_string(),
            email: None,
            name: Some("Cara".to_string()),
            profile_picture: None,
            bio: None,
            oauth_provider: "google".to_string(),
            oauth_id: "g-c".to_string(),
        },
        "t0",
    );
    let a = post(&mut state, "a", None, "t1");
    let c = state.add_comment(
        a,
        &AddCommentRequest { user_id: "0xCCC".to_string(), text: "nice".to_string() },
        "t2",
    );
    assert_eq!(c.id, 1);
    assert_eq!(c.post_id, a);
    assert_eq!(c.likes, 0);
    state.add_comment(
        a,
        &AddCommentRequest { user_id: "0xZZZ".to_string(), text: "hey".to_string() },
        "t3",
    );
    assert_eq!(state.memes[0].comment_count, 2);
    let listed = state.get_comments(a);
    assert_eq!(listed.len(), 2);
    // the stored user is attached, the unknown commenter stays bare
    assert_eq!(listed[0].user.as_ref().unwrap().name.as_deref(), Some("Cara"));
    assert!(listed[1].user.is_none());
    assert!(state.get_comments(999).is_empty());
    // commenting on a missing post still stores the comment, as the post
    // counter update has nothing to bump
    let orphan = state.add_comment(
        999,
        &AddCommentRequest { user_id: "0xCCC".to_string(), text: "lost".to_string() },
        "t4",
    );
    assert_eq!(orphan.post_id, 999);
    assert_eq!(state.comments.len(), 3);
}

#[test]
fn user_posts_are_filtered_by_owner() {
    let mut state = AppState::new();
    post(&mut state, "a", Some("0xAAA"), "t1");
    post(&mut state, "b", Some("0xBBB"), "t2");
    post(&mut state, "c", Some("0xAAA"), "t3");
    post(&mut state, "d", None, "t4");
    let posts = state.get_user_posts("0xAAA");
    assert_eq!(posts.len(), 2);
    assert_eq!(posts[0].caption, "a");
    assert_eq!(posts[1].caption, "c");
}

#[test]
fn following_feed_tracks_follow_state_and_recency() {
    let mut state = AppState::new();
    let req = FollowRequest {
        follower_id: "0xAAA".to_string(),
        following_id: "0xBBB".to_string(),
    };
    state.follow_user(&req, "2024-01-01T00:00:00+00:00").unwrap();
    let older = post(&mut state, "older", Some("0xBBB"), "2024-01-02T00:00:00+00:00");
    let newer = post(&mut state, "newer", Some("0xBBB"), "2024-01-05T00:00:00+00:00");
    post(&mut state, "stranger", Some("0xCCC"), "2024-01-09T00:00:00+00:00");
    let feed = state.get_following_feed("0xAAA");
    // only posts by followed users, newest first
    assert_eq!(feed.len(), 2);
    assert_eq!(feed[0].id, newer);
    assert_eq!(feed[1].id, older);
    // after unfollowing, the posts drop out of the feed
    state.unfollow_user(&req).unwrap();
    assert!(state.get_following_feed("0xAAA").is_empty());
}

#[test]
fn empty_state_yields_empty_feeds() {
    let state = AppState::new();
    assert!(state.get_memes().is_empty());
    assert!(state.get_user_posts("0xAAA").is_empty());
    assert!(state.get_following_feed("0xAAA").is_empty());
}

#[test]
fn equal_scores_keep_both_posts() {
    let mut state = AppState::new();
    post(&mut state, "a", None, "t1");
    post(&mut state, "b", None, "t2");
    let feed = state.get_memes();
    assert_eq!(feed.len(), 2);
    let mut ids: Vec<i32> = feed.iter().map(|m| m.id).collect();
    ids.sort();
    assert_eq!(ids, vec![1, 2]);
}
