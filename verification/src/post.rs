//! Posts and what users attach to them.

use crate::identity::Identity;
use vstd::prelude::*;

verus! {

/// The mathematical values of the items of `s`, in order.
pub open spec fn views<T: View>(s: Seq<T>) -> Seq<T::V> {
    Seq::new(s.len(), |k: int| s[k]@)
}

/// Adding an item to a sequence adds its value to the values.
pub proof fn lemma_views_push<T: View>(s: Seq<T>, item: T)
    ensures
        views(s.push(item)) == views(s).push(item@),
{
    assert(views(s.push(item)) =~= views(s).push(item@));
}

/// A user's re-share of a post.
#[derive(Debug)]
pub struct Repost {
    pub user: Identity,
    pub created_at: u64,
}

/// A user's like of a post.
#[derive(Debug)]
pub struct Like {
    pub user: Identity,
    pub created_at: u64,
}

/// A user's comment on a post.
#[derive(Debug)]
pub struct Comment {
    pub user: Identity,
    pub content: String,
    pub created_at: u64,
}

/// A post, as its author's actor holds it and as a shard serves it.
#[derive(Debug)]
pub struct Post {
    /// The global identifier, `shard#author#sequence`.
    pub post_id: String,
    /// The feed actor that authored the post.
    pub feed_canister: Identity,
    /// The author's sequence number of the post.
    pub index: u64,
    /// The caller who created the post.
    pub user: Identity,
    pub content: String,
    pub photo_url: Vec<String>,
    /// At most one entry for each identity.
    pub repost: Vec<Repost>,
    /// At most one entry for each identity.
    pub like: Vec<Like>,
    pub comment: Vec<Comment>,
    pub created_at: u64,
}

/// The mathematical value of a [`Repost`].
pub struct RepostView {
    pub user: Seq<u8>,
    pub created_at: u64,
}

/// The mathematical value of a [`Like`].
pub struct LikeView {
    pub user: Seq<u8>,
    pub created_at: u64,
}

/// The mathematical value of a [`Comment`].
pub struct CommentView {
    pub user: Seq<u8>,
    pub content: Seq<char>,
    pub created_at: u64,
}

/// The mathematical value of a [`Post`].
pub struct PostView {
    pub post_id: Seq<char>,
    pub feed_canister: Seq<u8>,
    pub index: u64,
    pub user: Seq<u8>,
    pub content: Seq<char>,
    pub photo_url: Seq<Seq<char>>,
    pub repost: Seq<RepostView>,
    pub like: Seq<LikeView>,
    pub comment: Seq<CommentView>,
    pub created_at: u64,
}

impl View for Repost {
    type V = RepostView;

    open spec fn view(&self) -> RepostView {
        RepostView { user: self.user@, created_at: self.created_at }
    }
}

impl View for Like {
    type V = LikeView;

    open spec fn view(&self) -> LikeView {
        LikeView { user: self.user@, created_at: self.created_at }
    }
}

impl View for Comment {
    type V = CommentView;

    open spec fn view(&self) -> CommentView {
        CommentView { user: self.user@, content: self.content@, created_at: self.created_at }
    }
}

impl View for Post {
    type V = PostView;

    open spec fn view(&self) -> PostView {
        PostView {
            post_id: self.post_id@,
            feed_canister: self.feed_canister@,
            index: self.index,
            user: self.user@,
            content: self.content@,
            photo_url: views(self.photo_url@),
            repost: views(self.repost@),
            like: views(self.like@),
            comment: views(self.comment@),
            created_at: self.created_at,
        }
    }
}

impl Clone for Repost {
    fn clone(&self) -> (copy: Self)
        ensures
            copy@ == self@,
    {
        Repost { user: self.user.clone(), created_at: self.created_at }
    }
}

impl Clone for Like {
    fn clone(&self) -> (copy: Self)
        ensures
            copy@ == self@,
    {
        Like { user: self.user.clone(), created_at: self.created_at }
    }
}

impl Clone for Comment {
    fn clone(&self) -> (copy: Self)
        ensures
            copy@ == self@,
    {
        Comment {
            user: self.user.clone(),
            content: self.content.clone(),
            created_at: self.created_at,
        }
    }
}

/// A copy of a list of texts.
pub fn clone_texts(list: &Vec<String>) -> (copy: Vec<String>)
    ensures
        views(copy@) == views(list@),
{
    let copy = list.clone();
    assert(views(copy@) =~= views(list@));
    copy
}

/// A copy of a list of re-shares.
pub fn clone_reposts(list: &Vec<Repost>) -> (copy: Vec<Repost>)
    ensures
        views(copy@) == views(list@),
{
    let copy = list.clone();
    assert(views(copy@) =~= views(list@));
    copy
}

/// A copy of a list of likes.
pub fn clone_likes(list: &Vec<Like>) -> (copy: Vec<Like>)
    ensures
        views(copy@) == views(list@),
{
    let copy = list.clone();
    assert(views(copy@) =~= views(list@));
    copy
}

/// A copy of a list of comments.
pub fn clone_comments(list: &Vec<Comment>) -> (copy: Vec<Comment>)
    ensures
        views(copy@) == views(list@),
{
    let copy = list.clone();
    assert(views(copy@) =~= views(list@));
    copy
}

impl Clone for Post {
    fn clone(&self) -> (copy: Self)
        ensures
            copy@ == self@,
    {
        Post {
            post_id: self.post_id.clone(),
            feed_canister: self.feed_canister.clone(),
            index: self.index,
            user: self.user.clone(),
            content: self.content.clone(),
            photo_url: clone_texts(&self.photo_url),
            repost: clone_reposts(&self.repost),
            like: clone_likes(&self.like),
            comment: clone_comments(&self.comment),
            created_at: self.created_at,
        }
    }
}

/// Whether `user` has re-shared the post.
pub open spec fn reposted_by(post: PostView, user: Seq<u8>) -> bool {
    exists|k: int| 0 <= k < post.repost.len() && (#[trigger] post.repost[k]).user == user
}

/// Whether `user` has liked the post.
pub open spec fn liked_by(post: PostView, user: Seq<u8>) -> bool {
    exists|k: int| 0 <= k < post.like.len() && (#[trigger] post.like[k]).user == user
}

/// Whether no identity has re-shared the post twice, nor liked it twice.
pub open spec fn marks_are_unique(post: PostView) -> bool {
    &&& forall|j: int, k: int|
        0 <= j < k < post.repost.len() ==> (#[trigger] post.repost[j]).user != (
        #[trigger] post.repost[k]).user
    &&& forall|j: int, k: int|
        0 <= j < k < post.like.len() ==> (#[trigger] post.like[j]).user != (
        #[trigger] post.like[k]).user
}

/// Whether `user` has re-shared `post`.
pub fn is_repost_user(post: &Post, user: &Identity) -> (found: bool)
    ensures
        found == reposted_by(post@, user@),
{
    let mut at: usize = 0;
    while at < post.repost.len()
        invariant
            at <= post.repost@.len(),
            forall|k: int| 0 <= k < at ==> (#[trigger] post@.repost[k]).user != user@,
        decreases post.repost@.len() - at,
    {
        if post.repost[at].user == *user {
            assert(post@.repost[at as int].user == user@);
            return true;
        }
        at += 1;
    }
    false
}

/// Whether `user` has liked `post`.
pub fn is_like_user(post: &Post, user: &Identity) -> (found: bool)
    ensures
        found == liked_by(post@, user@),
{
    let mut at: usize = 0;
    while at < post.like.len()
        invariant
            at <= post.like@.len(),
            forall|k: int| 0 <= k < at ==> (#[trigger] post@.like[k]).user != user@,
        decreases post.like@.len() - at,
    {
        if post.like[at].user == *user {
            assert(post@.like[at as int].user == user@);
            return true;
        }
        at += 1;
    }
    false
}

} // verus!
