use vstd::prelude::*;
use crate::text::clone_opt_string;

verus! {

/// A member of the in-memory social graph, keyed by wallet address.
#[derive(Debug)]
pub struct User {
    pub wallet_address: String,
    pub email: Option<String>,
    pub name: Option<String>,
    pub profile_picture: Option<String>,
    pub bio: Option<String>,
    /// Which identity provider vouched for this user.
    pub oauth_provider: String,
    /// The provider's unique id for this user.
    pub oauth_id: String,
    /// RFC 3339 creation timestamp.
    pub created_at: String,
    pub followers_count: i32,
    pub following_count: i32,
}

/// Input to the in-memory user registration.
#[derive(Debug)]
pub struct RegisterUserRequest {
    pub wallet_address: String,
    pub email: Option<String>,
    pub name: Option<String>,
    pub profile_picture: Option<String>,
    pub bio: Option<String>,
    pub oauth_provider: String,
    pub oauth_id: String,
}

/// Partial profile update for an in-memory user: only the fields that are
/// present overwrite the stored values.
#[derive(Debug)]
pub struct UpdateProfileRequest {
    pub name: Option<String>,
    pub bio: Option<String>,
    pub profile_picture: Option<String>,
}

/// A user search: the query matches against email, name and wallet address,
/// case-insensitively.
#[derive(Debug)]
pub struct SearchUsersRequest {
    pub query: String,
}

/// A posted meme.
#[derive(Debug)]
pub struct Meme {
    pub id: i32,
    pub caption: String,
    pub tags: String,
    pub image: String,
    pub video: Option<String>,
    pub media_type: String,
    /// The owning wallet address, when known.
    pub evm_address: Option<String>,
    pub user: Option<User>,
    pub likes: i32,
    pub comment_count: i32,
    pub is_liked: bool,
    /// RFC 3339 creation timestamp.
    pub created_at: String,
}

/// A comment under a post.
#[derive(Debug)]
pub struct Comment {
    pub id: i32,
    pub post_id: i32,
    /// The commenting user's wallet address.
    pub user_id: String,
    pub user: Option<User>,
    pub text: String,
    pub created_at: String,
    pub likes: i32,
    pub is_liked: bool,
}

/// Input to adding a comment.
#[derive(Debug)]
pub struct AddCommentRequest {
    pub user_id: String,
    pub text: String,
}

/// One follow edge of the social graph.
#[derive(Debug)]
pub struct Follow {
    pub follower_id: String,
    pub following_id: String,
    pub created_at: String,
}

/// Input to following or unfollowing.
#[derive(Debug)]
pub struct FollowRequest {
    pub follower_id: String,
    pub following_id: String,
}

/// What kind of payload a direct message carries.
#[derive(Clone, Copy, Debug, PartialEq, Eq, Structural)]
pub enum MessageContentType {
    Text,
    Meme,
    Image,
    Video,
}

/// The payload of a direct message.
#[derive(Debug)]
pub struct MessageContent {
    pub content_type: MessageContentType,
    pub text: Option<String>,
    pub meme_id: Option<i32>,
    pub media_url: Option<String>,
}

/// A direct message between two users.
#[derive(Debug)]
pub struct Message {
    pub id: i32,
    pub sender_id: String,
    pub receiver_id: String,
    pub content: MessageContent,
    /// RFC 3339 timestamp.
    pub timestamp: String,
    pub is_read: bool,
}

/// Input to sending a direct message.
#[derive(Debug)]
pub struct SendMessageRequest {
    pub sender_id: String,
    pub receiver_id: String,
    pub content: MessageContent,
}

/// The summary of all traffic with one conversation partner.
#[derive(Debug)]
pub struct Conversation {
    pub id: String,
    pub other_user_id: String,
    pub other_user_name: Option<String>,
    pub last_message: Option<Message>,
    pub unread_count: i32,
    pub updated_at: String,
}

/// The in-memory aggregate root: every collection of the social graph, plus
/// the id counters.  A caller serializes access (one lock around the whole
/// state); the methods themselves are sequential.
#[derive(Debug)]
pub struct AppState {
    pub memes: Vec<Meme>,
    pub next_id: i32,
    pub messages: Vec<Message>,
    pub next_message_id: i32,
    pub users: Vec<User>,
    pub comments: Vec<Comment>,
    pub next_comment_id: i32,
    pub follows: Vec<Follow>,
}

impl AppState {
    /// The state's standing invariant: counters are never negative, and the
    /// message id counter bounds how many messages there are (so counting
    /// messages always fits the counter type).
    pub open spec fn wf(self) -> bool {
        &&& forall|i: int|
            0 <= i < self.memes@.len() ==> (#[trigger] self.memes@[i]).likes >= 0
                && self.memes@[i].comment_count >= 0
        &&& forall|i: int|
            0 <= i < self.users@.len() ==> (#[trigger] self.users@[i]).followers_count >= 0
                && self.users@[i].following_count >= 0
        &&& forall|i: int|
            0 <= i < self.comments@.len() ==> (#[trigger] self.comments@[i]).likes >= 0
        &&& self.messages@.len() < self.next_message_id
        &&& self.next_message_id >= 1
    }

    /// An empty state.
    pub fn new() -> (r: AppState)
        ensures
            r.wf(),
            r.memes@.len() == 0,
            r.messages@.len() == 0,
            r.users@.len() == 0,
            r.comments@.len() == 0,
            r.follows@.len() == 0,
            r.next_id == 1,
            r.next_message_id == 1,
            r.next_comment_id == 1,
    {
        AppState {
            memes: Vec::new(),
            next_id: 1,
            messages: Vec::new(),
            next_message_id: 1,
            users: Vec::new(),
            comments: Vec::new(),
            next_comment_id: 1,
            follows: Vec::new(),
        }
    }
}

/// Everything but the user collection is untouched.
pub open spec fn only_users_differ(pre: AppState, post: AppState) -> bool {
    &&& post.memes == pre.memes
    &&& post.next_id == pre.next_id
    &&& post.messages == pre.messages
    &&& post.next_message_id == pre.next_message_id
    &&& post.comments == pre.comments
    &&& post.next_comment_id == pre.next_comment_id
    &&& post.follows == pre.follows
}

/// Everything but the user and follow collections is untouched.
pub open spec fn only_social_differs(pre: AppState, post: AppState) -> bool {
    &&& post.memes == pre.memes
    &&& post.next_id == pre.next_id
    &&& post.messages == pre.messages
    &&& post.next_message_id == pre.next_message_id
    &&& post.comments == pre.comments
    &&& post.next_comment_id == pre.next_comment_id
}

/// Everything but the meme collection and its id counter is untouched.
pub open spec fn only_memes_differ(pre: AppState, post: AppState) -> bool {
    &&& post.messages == pre.messages
    &&& post.next_message_id == pre.next_message_id
    &&& post.users == pre.users
    &&& post.comments == pre.comments
    &&& post.next_comment_id == pre.next_comment_id
    &&& post.follows == pre.follows
}

/// Everything but the comment collection, its id counter and the meme
/// collection (whose counters comments touch) is untouched.
pub open spec fn only_posts_differ(pre: AppState, post: AppState) -> bool {
    &&& post.next_id == pre.next_id
    &&& post.messages == pre.messages
    &&& post.next_message_id == pre.next_message_id
    &&& post.users == pre.users
    &&& post.follows == pre.follows
}

/// Everything but the message collection and its id counter is untouched.
pub open spec fn only_messages_differ(pre: AppState, post: AppState) -> bool {
    &&& post.memes == pre.memes
    &&& post.next_id == pre.next_id
    &&& post.users == pre.users
    &&& post.comments == pre.comments
    &&& post.next_comment_id == pre.next_comment_id
    &&& post.follows == pre.follows
}

/// Copies an optional user, preserving the value exactly.
pub fn clone_opt_user(o: &Option<User>) -> (r: Option<User>)
    ensures
        r == *o,
{
    match o {
        Some(u) => Some(u.duplicate()),
        None => None,
    }
}

impl User {
    /// An exact copy.
    pub fn duplicate(&self) -> (r: User)
        ensures
            r == *self,
    {
        User {
            wallet_address: self.wallet_address.clone(),
            email: clone_opt_string(&self.email),
            name: clone_opt_string(&self.name),
            profile_picture: clone_opt_string(&self.profile_picture),
            bio: clone_opt_string(&self.bio),
            oauth_provider: self.oauth_provider.clone(),
            oauth_id: self.oauth_id.clone(),
            created_at: self.created_at.clone(),
            followers_count: self.followers_count,
            following_count: self.following_count,
        }
    }
}

impl Meme {
    /// An exact copy.
    pub fn duplicate(&self) -> (r: Meme)
        ensures
            r == *self,
    {
        Meme {
            id: self.id,
            caption: self.caption.clone(),
            tags: self.tags.clone(),
            image: self.image.clone(),
            video: clone_opt_string(&self.video),
            media_type: self.media_type.clone(),
            evm_address: clone_opt_string(&self.evm_address),
            user: clone_opt_user(&self.user),
            likes: self.likes,
            comment_count: self.comment_count,
            is_liked: self.is_liked,
            created_at: self.created_at.clone(),
        }
    }
}

impl Comment {
    /// An exact copy.
    pub fn duplicate(&self) -> (r: Comment)
        ensures
            r == *self,
    {
        Comment {
            id: self.id,
            post_id: self.post_id,
            user_id: self.user_id.clone(),
            user: clone_opt_user(&self.user),
            text: self.text.clone(),
            created_at: self.created_at.clone(),
            likes: self.likes,
            is_liked: self.is_liked,
        }
    }
}

impl Follow {
    /// An exact copy.
    pub fn duplicate(&self) -> (r: Follow)
        ensures
            r == *self,
    {
        Follow {
            follower_id: self.follower_id.clone(),
            following_id: self.following_id.clone(),
            created_at: self.created_at.clone(),
        }
    }
}

impl MessageContent {
    /// An exact copy.
    pub fn duplicate(&self) -> (r: MessageContent)
        ensures
            r == *self,
    {
        MessageContent {
            content_type: self.content_type,
            text: clone_opt_string(&self.text),
            meme_id: self.meme_id,
            media_url: clone_opt_string(&self.media_url),
        }
    }
}

impl Message {
    /// An exact copy.
    pub fn duplicate(&self) -> (r: Message)
        ensures
            r == *self,
    {
        Message {
            id: self.id,
            sender_id: self.sender_id.clone(),
            receiver_id: self.receiver_id.clone(),
            content: self.content.duplicate(),
            timestamp: self.timestamp.clone(),
            is_read: self.is_read,
        }
    }
}

} // verus!
