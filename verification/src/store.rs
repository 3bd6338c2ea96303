//! The authoritative store: the posts that this actor authored, by sequence
//! number.

use crate::address::{check_post_id, get_post_id, post_id_address, post_id_text};
use crate::identity::Identity;
use crate::post::{
    lemma_views_push, liked_by, marks_are_unique, reposted_by, views, Comment, CommentView, Like,
    LikeView, Post, PostView, Repost, RepostView,
};
use vstd::prelude::*;

verus! {

/// The post that `user` creates at `now` as number `index` of the actor
/// `actor`, to be held by `shard`.
pub open spec fn new_post(
    shard: Seq<u8>,
    actor: Seq<u8>,
    user: Seq<u8>,
    index: u64,
    content: Seq<char>,
    photo_url: Seq<Seq<char>>,
    now: u64,
) -> PostView {
    PostView {
        post_id: post_id_text(shard, user, index),
        feed_canister: actor,
        index,
        user,
        content,
        photo_url,
        repost: Seq::empty(),
        like: Seq::empty(),
        comment: Seq::empty(),
        created_at: now,
    }
}

/// `post` with one more re-share.
pub open spec fn with_repost(post: PostView, repost: RepostView) -> PostView {
    PostView { repost: post.repost.push(repost), ..post }
}

/// `post` with one more like.
pub open spec fn with_like(post: PostView, like: LikeView) -> PostView {
    PostView { like: post.like.push(like), ..post }
}

/// `post` with one more comment.
pub open spec fn with_comment(post: PostView, comment: CommentView) -> PostView {
    PostView { comment: post.comment.push(comment), ..post }
}

/// Whether the identifier of `post` names its sequence number.
pub open spec fn names_own_index(post: PostView) -> bool {
    post_id_address(post.post_id) matches Ok(address) && address.index == post.index
}

/// What holds of the posts of a store: the post at place `k` has sequence
/// number `k` and an identifier that names `k`, and nobody has re-shared or
/// liked it twice.
pub open spec fn store_ok(posts: Seq<PostView>) -> bool {
    forall|k: int|
        0 <= k < posts.len() ==> {
            &&& (#[trigger] posts[k]).index == k
            &&& names_own_index(posts[k])
            &&& marks_are_unique(posts[k])
        }
}

/// Whether no identity has re-shared `post` twice.
fn reposts_are_unique(post: &Post) -> (unique: bool)
    ensures
        unique == (forall|j: int, k: int|
            0 <= j < k < post@.repost.len() ==> (#[trigger] post@.repost[j]).user != (
            #[trigger] post@.repost[k]).user),
{
    let mut upto: usize = 0;
    while upto < post.repost.len()
        invariant
            upto <= post.repost@.len(),
            forall|j: int, k: int|
                0 <= j < k < upto ==> (#[trigger] post@.repost[j]).user != (
                #[trigger] post@.repost[k]).user,
        decreases post.repost@.len() - upto,
    {
        let mut at: usize = 0;
        while at < upto
            invariant
                at <= upto < post.repost@.len(),
                forall|j: int|
                    0 <= j < at ==> (#[trigger] post@.repost[j]).user != post@.repost[upto as int].user,
            decreases upto - at,
        {
            if post.repost[at].user == post.repost[upto].user {
                assert(post@.repost[at as int].user == post@.repost[upto as int].user);
                return false;
            }
            at += 1;
        }
        upto += 1;
    }
    true
}

/// Whether no identity has liked `post` twice.
fn likes_are_unique(post: &Post) -> (unique: bool)
    ensures
        unique == (forall|j: int, k: int|
            0 <= j < k < post@.like.len() ==> (#[trigger] post@.like[j]).user != (
            #[trigger] post@.like[k]).user),
{
    let mut upto: usize = 0;
    while upto < post.like.len()
        invariant
            upto <= post.like@.len(),
            forall|j: int, k: int|
                0 <= j < k < upto ==> (#[trigger] post@.like[j]).user != (
                #[trigger] post@.like[k]).user,
        decreases post.like@.len() - upto,
    {
        let mut at: usize = 0;
        while at < upto
            invariant
                at <= upto < post.like@.len(),
                forall|j: int|
                    0 <= j < at ==> (#[trigger] post@.like[j]).user != post@.like[upto as int].user,
            decreases upto - at,
        {
            if post.like[at].user == post.like[upto].user {
                assert(post@.like[at as int].user == post@.like[upto as int].user);
                return false;
            }
            at += 1;
        }
        upto += 1;
    }
    true
}

/// Whether `post` can stand at place `index` of a store.
fn fits_place(post: &Post, index: u64) -> (fits: bool)
    ensures
        fits == (post@.index == index && names_own_index(post@) && marks_are_unique(post@)),
{
    if post.index != index {
        return false;
    }
    match check_post_id(post.post_id.as_str()) {
        Ok(address) => {
            if address.index != index {
                return false;
            }
        },
        Err(_) => {
            return false;
        },
    }
    reposts_are_unique(post) && likes_are_unique(post)
}

/// The posts authored by one actor, in the order of their creation.
pub struct PostStore {
    posts: Vec<Post>,
}

impl View for PostStore {
    type V = Seq<PostView>;

    closed spec fn view(&self) -> Seq<PostView> {
        views(self.posts@)
    }
}

impl PostStore {
    #[verifier::type_invariant]
    spec fn sound(self) -> bool {
        store_ok(views(self.posts@))
    }

    /// A store without posts.
    pub fn new() -> (store: PostStore)
        ensures
            store@ == Seq::<PostView>::empty(),
    {
        let store = PostStore { posts: Vec::new() };
        assert(store@ =~= Seq::<PostView>::empty());
        store
    }

    /// The store that holds `posts`, where they are sound: numbered from 0
    /// in their order, each with an identifier that names its number, and
    /// none re-shared or liked twice by one identity.
    pub fn restore(posts: Vec<Post>) -> (store: Option<PostStore>)
        ensures
            store is Some <==> store_ok(views(posts@)),
            store matches Some(restored) ==> restored@ == views(posts@),
    {
        let mut at: usize = 0;
        while at < posts.len()
            invariant
                at <= posts@.len(),
                forall|k: int|
                    0 <= k < at ==> {
                        &&& (#[trigger] views(posts@)[k]).index == k
                        &&& names_own_index(views(posts@)[k])
                        &&& marks_are_unique(views(posts@)[k])
                    },
            decreases posts@.len() - at,
        {
            assert(views(posts@)[at as int] == posts@[at as int]@);
            if !fits_place(&posts[at], at as u64) {
                return None;
            }
            at += 1;
        }
        Some(PostStore { posts })
    }

    /// The number of posts, which is the sequence number of the next one.
    pub fn len(&self) -> (count: u64)
        ensures
            count == self@.len(),
            store_ok(self@),
    {
        proof {
            use_type_invariant(self);
        }
        self.posts.len() as u64
    }

    /// The post with sequence number `index`.
    pub fn get(&self, index: u64) -> (found: Option<&Post>)
        ensures
            store_ok(self@),
            found is Some <==> index < self@.len(),
            found matches Some(post) ==> post@ == self@[index as int],
    {
        proof {
            use_type_invariant(self);
        }
        if index < self.posts.len() as u64 {
            assert(self@[index as int] == self.posts@[index as int]@);
            Some(&self.posts[index as usize])
        } else {
            None
        }
    }

    /// Copies of all posts, in the order of their sequence numbers.
    pub fn all(&self) -> (posts: Vec<Post>)
        ensures
            views(posts@) == self@,
    {
        let mut posts: Vec<Post> = Vec::new();
        let mut at: usize = 0;
        while at < self.posts.len()
            invariant
                at <= self.posts@.len(),
                posts@.len() == at,
                forall|k: int| 0 <= k < at ==> (#[trigger] posts@[k])@ == self.posts@[k]@,
            decreases self.posts@.len() - at,
        {
            posts.push(self.posts[at].clone());
            at += 1;
        }
        assert(views(posts@) =~= self@);
        posts
    }

    /// Creates the next post and gives a copy of it.
    pub fn create(
        &mut self,
        shard: &Identity,
        actor: &Identity,
        user: &Identity,
        content: String,
        photo_url: Vec<String>,
        now: u64,
    ) -> (post: Post)
        ensures
            post@ == new_post(
                shard@,
                actor@,
                user@,
                old(self)@.len() as u64,
                content@,
                views(photo_url@),
                now,
            ),
            final(self)@ == old(self)@.push(post@),
    {
        proof {
            use_type_invariant(&*self);
        }
        let index = self.posts.len() as u64;
        let post = Post {
            post_id: get_post_id(shard, user, index),
            feed_canister: actor.clone(),
            index,
            user: user.clone(),
            content,
            photo_url,
            repost: Vec::new(),
            like: Vec::new(),
            comment: Vec::new(),
            created_at: now,
        };
        let copy = post.clone();
        let mut posts: Vec<Post> = Vec::new();
        core::mem::swap(&mut posts, &mut self.posts);
        proof {
            lemma_views_push(posts@, post);
            assert(post@.repost =~= Seq::<RepostView>::empty());
            assert(post@.like =~= Seq::<LikeView>::empty());
            assert(post@.comment =~= Seq::<CommentView>::empty());
        }
        posts.push(post);
        core::mem::swap(&mut posts, &mut self.posts);
        copy
    }

    /// A copy of the post with sequence number `index`.
    fn copy_of(&self, index: u64) -> (post: Post)
        requires
            index < self@.len(),
        ensures
            post@ == self@[index as int],
            post@.index == index,
            names_own_index(post@),
            marks_are_unique(post@),
    {
        let count = self.posts.len();
        proof {
            use_type_invariant(self);
            assert(index < count);
            assert(self@[index as int] == self.posts@[index as int]@);
        }
        self.posts[index as usize].clone()
    }

    /// Replaces the post with sequence number `index`.
    fn replace(&mut self, index: u64, post: Post)
        requires
            index < old(self)@.len(),
            post@.index == index,
            names_own_index(post@),
            marks_are_unique(post@),
        ensures
            final(self)@ == old(self)@.update(index as int, post@),
    {
        proof {
            use_type_invariant(&*self);
        }
        let mut posts: Vec<Post> = Vec::new();
        core::mem::swap(&mut posts, &mut self.posts);
        let ghost before = posts@;
        let count = posts.len();
        assert(index < count);
        posts.set(index as usize, post);
        proof {
            assert(views(posts@) =~= views(before).update(index as int, post@));
        }
        core::mem::swap(&mut posts, &mut self.posts);
    }

    /// Records that `repost.user` re-shares the post with sequence number
    /// `index`, and gives a copy of the post's re-shares.
    pub fn add_repost(&mut self, index: u64, repost: Repost) -> (reposts: Vec<Repost>)
        requires
            index < old(self)@.len(),
            !reposted_by(old(self)@[index as int], repost.user@),
        ensures
            final(self)@ == old(self)@.update(
                index as int,
                with_repost(old(self)@[index as int], repost@),
            ),
            views(reposts@) == final(self)@[index as int].repost,
    {
        let mut post = self.copy_of(index);
        let ghost before = post@;
        proof {
            lemma_views_push(post.repost@, repost);
        }
        post.repost.push(repost);
        let reposts = post.repost.clone();
        proof {
            assert(views(reposts@) =~= views(post.repost@));
            assert(post@ == with_repost(before, repost@));
            assert forall|j: int, k: int| 0 <= j < k < post@.repost.len() implies (
            #[trigger] post@.repost[j]).user != (#[trigger] post@.repost[k]).user by {
                if k == before.repost.len() {
                    assert(before.repost[j].user != repost@.user);
                } else {
                    assert(before.repost[j].user != before.repost[k].user);
                }
            }
        }
        self.replace(index, post);
        reposts
    }

    /// Records that `like.user` likes the post with sequence number `index`,
    /// and gives a copy of the post's likes.
    pub fn add_like(&mut self, index: u64, like: Like) -> (likes: Vec<Like>)
        requires
            index < old(self)@.len(),
            !liked_by(old(self)@[index as int], like.user@),
        ensures
            final(self)@ == old(self)@.update(index as int, with_like(old(self)@[index as int], like@)),
            views(likes@) == final(self)@[index as int].like,
    {
        let mut post = self.copy_of(index);
        let ghost before = post@;
        proof {
            lemma_views_push(post.like@, like);
        }
        post.like.push(like);
        let likes = post.like.clone();
        proof {
            assert(views(likes@) =~= views(post.like@));
            assert(post@ == with_like(before, like@));
            assert forall|j: int, k: int| 0 <= j < k < post@.like.len() implies (
            #[trigger] post@.like[j]).user != (#[trigger] post@.like[k]).user by {
                if k == before.like.len() {
                    assert(before.like[j].user != like@.user);
                } else {
                    assert(before.like[j].user != before.like[k].user);
                }
            }
        }
        self.replace(index, post);
        likes
    }

    /// Appends `comment` to the post with sequence number `index`, and gives
    /// a copy of the post's comments.
    pub fn add_comment(&mut self, index: u64, comment: Comment) -> (comments: Vec<Comment>)
        requires
            index < old(self)@.len(),
        ensures
            final(self)@ == old(self)@.update(
                index as int,
                with_comment(old(self)@[index as int], comment@),
            ),
            views(comments@) == final(self)@[index as int].comment,
    {
        let mut post = self.copy_of(index);
        let ghost before = post@;
        proof {
            lemma_views_push(post.comment@, comment);
        }
        post.comment.push(comment);
        let comments = post.comment.clone();
        proof {
            assert(views(comments@) =~= views(post.comment@));
            assert(post@ == with_comment(before, comment@));
        }
        self.replace(index, post);
        comments
    }
}

} // verus!
