use vstd::prelude::*;
use crate::domain::{
    only_memes_differ, only_posts_differ, AddCommentRequest, AppState, Comment, Follow, Meme, User,
};
use crate::errors::ApiError;
use crate::seqtools::{
    first_match_index, lemma_filter_take_step, lemma_first_match_index_is,
    lemma_first_match_index_none, lemma_multiset_transfer,
};
use crate::social::{following_exists, wallet_index};
use crate::text::{lemma_lex_refl, lemma_lex_total, lemma_lex_trans, lex_leq, str_eq, str_leq};
use vstd::multiset::Multiset;

verus! {

/// A post's popularity: likes plus comments.
pub open spec fn score(m: Meme) -> int {
    m.likes + m.comment_count
}

/// Sorted by popularity, most popular first.
pub open spec fn sorted_by_score_desc(s: Seq<Meme>) -> bool {
    forall|i: int, j: int|
        #![trigger s[i], s[j]]
        0 <= i < j < s.len() ==> score(s[i]) >= score(s[j])
}

/// Sorted by creation timestamp, newest first.
pub open spec fn sorted_by_created_desc(s: Seq<Meme>) -> bool {
    forall|i: int, j: int|
        #![trigger s[i], s[j]]
        0 <= i < j < s.len() ==> lex_leq(s[j].created_at@, s[i].created_at@)
}

/// Index of the first post with this id, if any.
pub open spec fn meme_index(memes: Seq<Meme>, id: i32) -> Option<int> {
    first_match_index(memes, |m: Meme| m.id == id)
}

/// A post after one more like.
pub open spec fn liked(m: Meme) -> Meme {
    Meme { likes: (m.likes + 1) as i32, ..m }
}

/// A post after one more comment.
pub open spec fn with_comment_added(m: Meme) -> Meme {
    Meme { comment_count: (m.comment_count + 1) as i32, ..m }
}

/// The post belongs to this wallet.
pub open spec fn owned_by(m: Meme, wallet: Seq<char>) -> bool {
    m.evm_address matches Some(a) && a@ == wallet
}

/// The post shows up in this viewer's following feed: it has an owner, and
/// the viewer follows that owner.
pub open spec fn in_following_feed(m: Meme, follows: Seq<Follow>, viewer: Seq<char>) -> bool {
    m.evm_address matches Some(a) && following_exists(follows, viewer, a@)
}

/// A comment with the commenting user's row attached, when one is stored.
pub open spec fn attach_user(c: Comment, users: Seq<User>) -> Comment {
    match wallet_index(users, c.user_id@) {
        Option::None => c,
        Option::Some(i) => Comment { user: Some(users[i]), ..c },
    }
}

/// An exact copy of a post, with fresh counter values.
fn meme_with_counts(m: &Meme, likes: i32, comment_count: i32) -> (r: Meme)
    ensures
        r == (Meme { likes, comment_count, ..*m }),
{
    Meme {
        id: m.id,
        caption: m.caption.clone(),
        tags: m.tags.clone(),
        image: m.image.clone(),
        video: crate::text::clone_opt_string(&m.video),
        media_type: m.media_type.clone(),
        evm_address: crate::text::clone_opt_string(&m.evm_address),
        user: crate::domain::clone_opt_user(&m.user),
        likes,
        comment_count,
        is_liked: m.is_liked,
        created_at: m.created_at.clone(),
    }
}

/// Finds the first post with this id.
fn find_meme_index(memes: &Vec<Meme>, id: i32) -> (r: Option<usize>)
    ensures
        (match r {
            Option::Some(k) => k < memes@.len() && meme_index(memes@, id) == Some(k as int),
            Option::None => meme_index(memes@, id) is None,
        }),
{
    let n = memes.len();
    let mut i: usize = 0;
    while i < n
        invariant
            n == memes@.len(),
            i <= n,
            forall|j: int| 0 <= j < i ==> (#[trigger] memes@[j]).id != id,
        decreases n - i,
    {
        if memes[i].id == id {
            proof {
                lemma_first_match_index_is(memes@, |m: Meme| m.id == id, i as int);
            }
            return Some(i);
        }
        i = i + 1;
    }
    proof {
        lemma_first_match_index_none(memes@, |m: Meme| m.id == id);
    }
    None
}

/// An exact copy of a post collection.
fn copy_memes(v: &Vec<Meme>) -> (r: Vec<Meme>)
    ensures
        r@ == v@,
{
    let n = v.len();
    let mut out: Vec<Meme> = Vec::new();
    let mut i: usize = 0;
    while i < n
        invariant
            n == v@.len(),
            i <= n,
            out@ == v@.take(i as int),
        decreases n - i,
    {
        out.push(v[i].duplicate());
        proof {
            assert(v@.take(i + 1) =~= v@.take(i as int).push(v@[i as int]));
        }
        i = i + 1;
    }
    proof {
        assert(v@.take(n as int) =~= v@);
    }
    out
}

/// Index of a post with maximal score.
fn max_score_index(v: &Vec<Meme>) -> (r: usize)
    requires
        v@.len() > 0,
    ensures
        r < v@.len(),
        forall|j: int| 0 <= j < v@.len() ==> score(#[trigger] v@[j]) <= score(v@[r as int]),
{
    let n = v.len();
    let mut best: usize = 0;
    let mut k: usize = 1;
    while k < n
        invariant
            n == v@.len(),
            best < k <= n,
            forall|j: int| 0 <= j < k ==> score(#[trigger] v@[j]) <= score(v@[best as int]),
        decreases n - k,
    {
        let sk = v[k].likes as i64 + v[k].comment_count as i64;
        let sb = v[best].likes as i64 + v[best].comment_count as i64;
        if sk > sb {
            best = k;
        }
        k = k + 1;
    }
    best
}

/// Index of a post with maximal creation timestamp; among equals, the
/// earliest index.
fn max_created_index(v: &Vec<Meme>) -> (r: usize)
    requires
        v@.len() > 0,
    ensures
        r < v@.len(),
        forall|j: int|
            0 <= j < v@.len() ==> lex_leq(
                (#[trigger] v@[j]).created_at@,
                v@[r as int].created_at@,
            ),
{
    let n = v.len();
    let mut best: usize = 0;
    let mut k: usize = 1;
    proof {
        lemma_lex_refl(v@[0].created_at@);
    }
    while k < n
        invariant
            n == v@.len(),
            best < k <= n,
            forall|j: int|
                0 <= j < k ==> lex_leq((#[trigger] v@[j]).created_at@, v@[best as int].created_at@),
        decreases n - k,
    {
        proof {
            lemma_lex_refl(v@[k as int].created_at@);
        }
        if !str_leq(v[k].created_at.as_str(), v[best].created_at.as_str()) {
            proof {
                lemma_lex_total(v@[k as int].created_at@, v@[best as int].created_at@);
                lemma_lex_refl(v@[k as int].created_at@);
                assert forall|j: int| 0 <= j < k implies lex_leq(
                    (#[trigger] v@[j]).created_at@,
                    v@[k as int].created_at@,
                ) by {
                    lemma_lex_trans(
                        v@[j].created_at@,
                        v@[best as int].created_at@,
                        v@[k as int].created_at@,
                    );
                }
            }
            best = k;
        }
        k = k + 1;
    }
    best
}

/// Sorts posts by popularity, most popular first; the collection's contents
/// are unchanged.
fn sort_memes_by_score(input: Vec<Meme>) -> (r: Vec<Meme>)
    ensures
        r@.to_multiset() == input@.to_multiset(),
        r@.len() == input@.len(),
        sorted_by_score_desc(r@),
{
    let ghost input0 = input@;
    let mut src = input;
    let mut out: Vec<Meme> = Vec::new();
    proof {
        broadcast use vstd::multiset::group_multiset_axioms;

        vstd::seq_lib::to_multiset_len(out@);
        assert(out@.to_multiset().add(src@.to_multiset()) =~= input0.to_multiset());
    }
    while src.len() > 0
        invariant
            out@.to_multiset().add(src@.to_multiset()) == input0.to_multiset(),
            out@.len() + src@.len() == input0.len(),
            sorted_by_score_desc(out@),
            forall|a: int, b: int|
                #![trigger out@[a], src@[b]]
                0 <= a < out@.len() && 0 <= b < src@.len() ==> score(out@[a]) >= score(src@[b]),
        decreases src.len(),
    {
        let ghost src0 = src@;
        let ghost out0 = out@;
        let best = max_score_index(&src);
        let m = src.remove(best);
        proof {
            broadcast use vstd::multiset::group_multiset_axioms;

            vstd::seq_lib::to_multiset_contains(src0, m);
            vstd::seq_lib::to_multiset_remove(src0, best as int);
            vstd::seq_lib::to_multiset_build(out0, m);
            assert(src0.contains(src0[best as int]));
            assert(src0.to_multiset().count(m) >= 1);
            lemma_multiset_transfer(out0.to_multiset(), src0.to_multiset(), m);
        }
        out.push(m);
        proof {
            assert forall|a: int, b: int|
                #![trigger out@[a], src@[b]]
                0 <= a < out@.len() && 0 <= b < src@.len() implies score(out@[a]) >= score(
                src@[b],
            ) by {
                if b < best {
                    assert(src@[b] == src0[b]);
                } else {
                    assert(src@[b] == src0[b + 1]);
                }
                if a < out0.len() {
                    assert(out@[a] == out0[a]);
                } else {
                    assert(out@[a] == m);
                }
            }
            assert forall|i: int, j: int|
                #![trigger out@[i], out@[j]]
                0 <= i < j < out@.len() implies score(out@[i]) >= score(out@[j]) by {
                if j < out0.len() {
                    assert(out@[i] == out0[i] && out@[j] == out0[j]);
                } else {
                    assert(out@[j] == m);
                    assert(out@[i] == out0[i]);
                    assert(src0.contains(m));
                }
            }
        }
    }
    proof {
        broadcast use vstd::multiset::group_multiset_axioms;

        vstd::seq_lib::to_multiset_len(src@);
        vstd::seq_lib::to_multiset_len(out@);
        vstd::seq_lib::to_multiset_len(input0);
        assert(src@.to_multiset() =~= Multiset::<Meme>::empty());
        assert(out@.to_multiset().add(Multiset::<Meme>::empty()) =~= out@.to_multiset());
    }
    out
}

/// Sorts posts by creation timestamp, newest first; the collection's
/// contents are unchanged.
fn sort_memes_by_created(input: Vec<Meme>) -> (r: Vec<Meme>)
    ensures
        r@.to_multiset() == input@.to_multiset(),
        r@.len() == input@.len(),
        sorted_by_created_desc(r@),
{
    let ghost input0 = input@;
    let mut src = input;
    let mut out: Vec<Meme> = Vec::new();
    proof {
        broadcast use vstd::multiset::group_multiset_axioms;

        vstd::seq_lib::to_multiset_len(out@);
        assert(out@.to_multiset().add(src@.to_multiset()) =~= input0.to_multiset());
    }
    while src.len() > 0
        invariant
            out@.to_multiset().add(src@.to_multiset()) == input0.to_multiset(),
            out@.len() + src@.len() == input0.len(),
            sorted_by_created_desc(out@),
            forall|a: int, b: int|
                #![trigger out@[a], src@[b]]
                0 <= a < out@.len() && 0 <= b < src@.len() ==> lex_leq(
                    src@[b].created_at@,
                    out@[a].created_at@,
                ),
        decreases src.len(),
    {
        let ghost src0 = src@;
        let ghost out0 = out@;
        let best = max_created_index(&src);
        let m = src.remove(best);
        proof {
            broadcast use vstd::multiset::group_multiset_axioms;

            vstd::seq_lib::to_multiset_contains(src0, m);
            vstd::seq_lib::to_multiset_remove(src0, best as int);
            vstd::seq_lib::to_multiset_build(out0, m);
            assert(src0.contains(src0[best as int]));
            assert(src0.to_multiset().count(m) >= 1);
            lemma_multiset_transfer(out0.to_multiset(), src0.to_multiset(), m);
        }
        out.push(m);
        proof {
            assert forall|a: int, b: int|
                #![trigger out@[a], src@[b]]
                0 <= a < out@.len() && 0 <= b < src@.len() implies lex_leq(
                src@[b].created_at@,
                out@[a].created_at@,
            ) by {
                if b < best {
                    assert(src@[b] == src0[b]);
                } else {
                    assert(src@[b] == src0[b + 1]);
                }
                if a < out0.len() {
                    assert(out@[a] == out0[a]);
                } else {
                    assert(out@[a] == m);
                }
            }
            assert forall|i: int, j: int|
                #![trigger out@[i], out@[j]]
                0 <= i < j < out@.len() implies lex_leq(out@[j].created_at@, out@[i].created_at@) by {
                if j < out0.len() {
                    assert(out@[i] == out0[i] && out@[j] == out0[j]);
                } else {
                    assert(out@[j] == m);
                    assert(out@[i] == out0[i]);
                    assert(src0.contains(m));
                }
            }
        }
    }
    proof {
        broadcast use vstd::multiset::group_multiset_axioms;

        vstd::seq_lib::to_multiset_len(src@);
        vstd::seq_lib::to_multiset_len(out@);
        vstd::seq_lib::to_multiset_len(input0);
        assert(src@.to_multiset() =~= Multiset::<Meme>::empty());
        assert(out@.to_multiset().add(Multiset::<Meme>::empty()) =~= out@.to_multiset());
    }
    out
}

impl AppState {
    /// The global feed: every post, ordered by popularity (likes plus
    /// comments), most popular first.
    pub fn get_memes(&self) -> (r: Vec<Meme>)
        ensures
            r@.to_multiset() == self.memes@.to_multiset(),
            r@.len() == self.memes@.len(),
            sorted_by_score_desc(r@),
    {
        let copied = copy_memes(&self.memes);
        sort_memes_by_score(copied)
    }

    /// Adds one like to the post with this id and returns the updated post;
    /// an unknown id is not found.
    pub fn like_meme(&mut self, meme_id: i32) -> (r: Result<Meme, ApiError>)
        requires
            old(self).wf(),
            forall|i: int| 0 <= i < old(self).memes@.len() ==> (#[trigger] old(
                self,
            ).memes@[i]).likes < i32::MAX,
        ensures
            final(self).wf(),
            only_memes_differ(*old(self), *final(self)),
            final(self).next_id == old(self).next_id,
            (match meme_index(old(self).memes@, meme_id) {
                Option::None => r == Err::<Meme, ApiError>(ApiError::NotFound) && *final(self)
                    == *old(self),
                Option::Some(i) => {
                    &&& final(self).memes@ == old(self).memes@.update(
                        i,
                        liked(old(self).memes@[i]),
                    )
                    &&& r matches Ok(m) && m == liked(old(self).memes@[i])
                },
            }),
    {
        let idx = match find_meme_index(&self.memes, meme_id) {
            Some(idx) => idx,
            None => {
                return Err(ApiError::NotFound);
            },
        };
        let updated = meme_with_counts(
            &self.memes[idx],
            self.memes[idx].likes + 1,
            self.memes[idx].comment_count,
        );
        let r = updated.duplicate();
        self.memes[idx] = updated;
        Ok(r)
    }

    /// Stores a fresh post with the next id, zeroed counters and the given
    /// content, and returns it.
    pub fn add_meme(
        &mut self,
        caption: String,
        tags: String,
        image_url: String,
        evm_address: Option<String>,
        created_at: String,
    ) -> (r: Meme)
        requires
            old(self).wf(),
            old(self).next_id < i32::MAX,
        ensures
            final(self).wf(),
            only_memes_differ(*old(self), *final(self)),
            final(self).next_id == old(self).next_id + 1,
            final(self).memes@ == old(self).memes@.push(r),
            r.id == old(self).next_id,
            r.caption == caption,
            r.tags == tags,
            r.image == image_url,
            r.video is None,
            r.media_type@ == "image"@,
            r.evm_address == evm_address,
            r.user is None,
            r.likes == 0,
            r.comment_count == 0,
            !r.is_liked,
            r.created_at == created_at,
    {
        let id = self.next_id;
        self.next_id = id + 1;
        let meme = Meme {
            id,
            caption,
            tags,
            image: image_url,
            video: None,
            media_type: "image".to_owned(),
            evm_address,
            user: None,
            likes: 0,
            comment_count: 0,
            is_liked: false,
            created_at,
        };
        let r = meme.duplicate();
        self.memes.push(meme);
        r
    }

    /// Every post owned by this wallet, in insertion order.
    pub fn get_user_posts(&self, user_id: &str) -> (r: Vec<Meme>)
        ensures
            r@ == self.memes@.filter(|m: Meme| owned_by(m, user_id@)),
    {
        let n = self.memes.len();
        let mut out: Vec<Meme> = Vec::new();
        let mut i: usize = 0;
        proof {
            assert(self.memes@.take(0).filter(|m: Meme| owned_by(m, user_id@)) =~= Seq::<
                Meme,
            >::empty());
        }
        while i < n
            invariant
                n == self.memes@.len(),
                i <= n,
                out@ == self.memes@.take(i as int).filter(|m: Meme| owned_by(m, user_id@)),
            decreases n - i,
        {
            proof {
                lemma_filter_take_step(self.memes@, |m: Meme| owned_by(m, user_id@), i as int);
            }
            let is_owner = match &self.memes[i].evm_address {
                Some(a) => str_eq(a.as_str(), user_id),
                None => false,
            };
            if is_owner {
                out.push(self.memes[i].duplicate());
            }
            i = i + 1;
        }
        proof {
            assert(self.memes@.take(n as int) =~= self.memes@);
        }
        out
    }

    /// The following feed for a viewer: the posts owned by users the viewer
    /// follows, newest first.
    pub fn get_following_feed(&self, user_id: &str) -> (r: Vec<Meme>)
        ensures
            r@.to_multiset() == self.memes@.filter(
                |m: Meme| in_following_feed(m, self.follows@, user_id@),
            ).to_multiset(),
            sorted_by_created_desc(r@),
    {
        let n = self.memes.len();
        let mut picked: Vec<Meme> = Vec::new();
        let mut i: usize = 0;
        proof {
            assert(self.memes@.take(0).filter(
                |m: Meme| in_following_feed(m, self.follows@, user_id@),
            ) =~= Seq::<Meme>::empty());
        }
        while i < n
            invariant
                n == self.memes@.len(),
                i <= n,
                picked@ == self.memes@.take(i as int).filter(
                    |m: Meme| in_following_feed(m, self.follows@, user_id@),
                ),
            decreases n - i,
        {
            proof {
                lemma_filter_take_step(
                    self.memes@,
                    |m: Meme| in_following_feed(m, self.follows@, user_id@),
                    i as int,
                );
            }
            let in_feed = match &self.memes[i].evm_address {
                Some(a) => self.check_following(user_id, a.as_str()),
                None => false,
            };
            if in_feed {
                picked.push(self.memes[i].duplicate());
            }
            i = i + 1;
        }
        proof {
            assert(self.memes@.take(n as int) =~= self.memes@);
        }
        sort_memes_by_created(picked)
    }

    /// The comments under a post, each with the commenting user's row
    /// attached when that user is stored.
    pub fn get_comments(&self, post_id: i32) -> (r: Vec<Comment>)
        ensures
            r@ == self.comments@.filter(|c: Comment| c.post_id == post_id).map_values(
                |c: Comment| attach_user(c, self.users@),
            ),
    {
        let n = self.comments.len();
        let mut out: Vec<Comment> = Vec::new();
        let mut i: usize = 0;
        proof {
            assert(self.comments@.take(0).filter(|c: Comment| c.post_id == post_id).map_values(
                |c: Comment| attach_user(c, self.users@),
            ) =~= Seq::<Comment>::empty());
        }
        while i < n
            invariant
                n == self.comments@.len(),
                i <= n,
                out@ == self.comments@.take(i as int).filter(
                    |c: Comment| c.post_id == post_id,
                ).map_values(|c: Comment| attach_user(c, self.users@)),
            decreases n - i,
        {
            proof {
                lemma_filter_take_step(self.comments@, |c: Comment| c.post_id == post_id, i as int);
            }
            if self.comments[i].post_id == post_id {
                let ghost pre = self.comments@.take(i as int).filter(
                    |c: Comment| c.post_id == post_id,
                );
                let attached = attach_user_exec(&self.comments[i], &self.users);
                out.push(attached);
                proof {
                    assert(pre.push(self.comments@[i as int]).map_values(
                        |c: Comment| attach_user(c, self.users@),
                    ) =~= pre.map_values(|c: Comment| attach_user(c, self.users@)).push(
                        attach_user(self.comments@[i as int], self.users@),
                    ));
                }
            }
            i = i + 1;
        }
        proof {
            assert(self.comments@.take(n as int) =~= self.comments@);
        }
        out
    }

    /// Appends a comment under a post and bumps the post's comment counter
    /// (when the post is stored); returns the new comment.
    pub fn add_comment(&mut self, post_id: i32, req: &AddCommentRequest, created_at: &str) -> (r:
        Comment)
        requires
            old(self).wf(),
            old(self).next_comment_id < i32::MAX,
            forall|i: int| 0 <= i < old(self).memes@.len() ==> (#[trigger] old(
                self,
            ).memes@[i]).comment_count < i32::MAX,
        ensures
            final(self).wf(),
            only_posts_differ(*old(self), *final(self)),
            final(self).next_comment_id == old(self).next_comment_id + 1,
            final(self).comments@ == old(self).comments@.push(r),
            r.id == old(self).next_comment_id,
            r.post_id == post_id,
            r.user_id@ == req.user_id@,
            r.user is None,
            r.text@ == req.text@,
            r.created_at@ == created_at@,
            r.likes == 0,
            !r.is_liked,
            final(self).memes@ == (match meme_index(old(self).memes@, post_id) {
                Option::None => old(self).memes@,
                Option::Some(i) => old(self).memes@.update(
                    i,
                    with_comment_added(old(self).memes@[i]),
                ),
            }),
    {
        let id = self.next_comment_id;
        self.next_comment_id = id + 1;
        let comment = Comment {
            id,
            post_id,
            user_id: req.user_id.clone(),
            user: None,
            text: req.text.clone(),
            created_at: created_at.to_owned(),
            likes: 0,
            is_liked: false,
        };
        let r = comment.duplicate();
        self.comments.push(comment);
        match find_meme_index(&self.memes, post_id) {
            Some(idx) => {
                let updated = meme_with_counts(
                    &self.memes[idx],
                    self.memes[idx].likes,
                    self.memes[idx].comment_count + 1,
                );
                self.memes[idx] = updated;
            },
            None => {},
        }
        r
    }
}

/// Attaches the commenting user's stored row to a copy of the comment.
fn attach_user_exec(c: &Comment, users: &Vec<User>) -> (r: Comment)
    ensures
        r == attach_user(*c, users@),
{
    match crate::social::find_wallet_index(users, c.user_id.as_str()) {
        Some(i) => Comment {
            id: c.id,
            post_id: c.post_id,
            user_id: c.user_id.clone(),
            user: Some(users[i].duplicate()),
            text: c.text.clone(),
            created_at: c.created_at.clone(),
            likes: c.likes,
            is_liked: c.is_liked,
        },
        None => c.duplicate(),
    }
}

} // verus!
