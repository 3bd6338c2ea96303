//! The feed actor: its state and its operations.
//!
//! An operation that needs no remote work answers at once. The others
//! return a [`Step`]; the host makes the call that the step names and hands
//! the reply to [`Feed::resume`].

use crate::address::{check_post_id, post_id_address, ParseError, PostAddressView};
use crate::cache::{cache_of, is_feed_in_post, latest_posts, FeedCache};
use crate::identity::Identity;
use crate::model;
use crate::model::FeedView;
use crate::post::{
    is_like_user, is_repost_user, lemma_views_push, views, Comment, Like, Post, Repost,
};
use crate::protocol::{
    Delivery, Failure, Ingestion, NoticeKind, Outcome, Pending, RemoteCall, Reply, Step,
};
use crate::store::{store_ok, PostStore};
use vstd::prelude::*;

verus! {

/// The collaborators of a feed actor and its owner.
#[derive(Debug)]
pub struct FeedInitArg {
    /// The directory that hands out storage shards.
    pub root_bucket: Identity,
    /// The social graph.
    pub user_actor: Identity,
    /// The notifier for posts.
    pub post_fetch_actor: Identity,
    /// The notifier for comments.
    pub comment_fetch_actor: Identity,
    /// The notifier for likes.
    pub like_fetch_actor: Identity,
    /// The user whom the actor serves.
    pub owner: Identity,
}

/// A feed actor.
pub struct Feed {
    actor: Identity,
    root_bucket: Identity,
    user_actor: Identity,
    post_fetch_actor: Identity,
    comment_fetch_actor: Identity,
    like_fetch_actor: Identity,
    owner: Identity,
    bucket: Option<Identity>,
    posts: PostStore,
    feed: FeedCache,
}

impl View for Feed {
    type V = FeedView;

    closed spec fn view(&self) -> FeedView {
        FeedView {
            actor: self.actor@,
            root_bucket: self.root_bucket@,
            user_actor: self.user_actor@,
            post_fetch_actor: self.post_fetch_actor@,
            comment_fetch_actor: self.comment_fetch_actor@,
            like_fetch_actor: self.like_fetch_actor@,
            owner: self.owner@,
            bucket: match self.bucket {
                Some(shard) => Some(shard@),
                None => None,
            },
            posts: self.posts@,
            feed: self.feed@,
        }
    }
}

impl Feed {
    /// The actor `actor` at its start: no shard, no posts, nothing cached.
    pub fn init_function(actor: Identity, arg: FeedInitArg) -> (feed: Feed)
        ensures
            feed@ == (FeedView {
                actor: actor@,
                root_bucket: arg.root_bucket@,
                user_actor: arg.user_actor@,
                post_fetch_actor: arg.post_fetch_actor@,
                comment_fetch_actor: arg.comment_fetch_actor@,
                like_fetch_actor: arg.like_fetch_actor@,
                owner: arg.owner@,
                bucket: None,
                posts: Seq::empty(),
                feed: Map::empty(),
            }),
    {
        Feed {
            actor,
            root_bucket: arg.root_bucket,
            user_actor: arg.user_actor,
            post_fetch_actor: arg.post_fetch_actor,
            comment_fetch_actor: arg.comment_fetch_actor,
            like_fetch_actor: arg.like_fetch_actor,
            owner: arg.owner,
            bucket: None,
            posts: PostStore::new(),
            feed: FeedCache::new(),
        }
    }

    /// The actor as it was when its state was written down: with the shard
    /// it had cached, the posts it had authored and the posts it had cached,
    /// in the order in which they are to be cached again. There is no such
    /// actor where the posts are not sound.
    pub fn restore(
        actor: Identity,
        arg: FeedInitArg,
        bucket: Option<Identity>,
        posts: Vec<Post>,
        cached: Vec<(String, Post)>,
    ) -> (feed: Option<Feed>)
        ensures
            feed is Some <==> store_ok(views(posts@)),
            feed matches Some(restored) ==> restored@ == (FeedView {
                actor: actor@,
                root_bucket: arg.root_bucket@,
                user_actor: arg.user_actor@,
                post_fetch_actor: arg.post_fetch_actor@,
                comment_fetch_actor: arg.comment_fetch_actor@,
                like_fetch_actor: arg.like_fetch_actor@,
                owner: arg.owner@,
                bucket: match bucket {
                    Some(shard) => Some(shard@),
                    None => None,
                },
                posts: views(posts@),
                feed: cache_of(Seq::new(cached@.len(), |k: int| (cached@[k].0@, cached@[k].1@))),
            }),
    {
        match PostStore::restore(posts) {
            Some(store) => Some(
                Feed {
                    actor,
                    root_bucket: arg.root_bucket,
                    user_actor: arg.user_actor,
                    post_fetch_actor: arg.post_fetch_actor,
                    comment_fetch_actor: arg.comment_fetch_actor,
                    like_fetch_actor: arg.like_fetch_actor,
                    owner: arg.owner,
                    bucket,
                    posts: store,
                    feed: FeedCache::restore(cached),
                },
            ),
            None => None,
        }
    }

    /// The user whom this actor serves.
    pub fn get_owner(&self) -> (owner: Identity)
        ensures
            owner@ == self@.owner,
    {
        self.owner.clone()
    }

    /// Whether `caller` is the owner.
    pub fn is_owner(&self, caller: &Identity) -> (yes: bool)
        ensures
            yes == (caller@ == self@.owner),
    {
        *caller == self.owner
    }

    /// The owner hands the actor to `new_owner`. Nobody else can.
    pub fn update_owner(&mut self, caller: &Identity, new_owner: Identity) -> (done: Result<
        (),
        Failure,
    >)
        ensures
            caller@ == old(self)@.owner ==> done is Ok && final(self)@ == (FeedView {
                owner: new_owner@,
                ..old(self)@
            }),
            caller@ != old(self)@.owner ==> done == Err::<(), Failure>(Failure::Unauthorized)
                && final(self)@ == old(self)@,
    {
        if *caller == self.owner {
            self.owner = new_owner;
            Ok(())
        } else {
            Err(Failure::Unauthorized)
        }
    }

    /// The cached storage shard.
    pub fn get_bucket(&self) -> (bucket: Option<Identity>)
        ensures
            bucket is Some <==> self@.bucket is Some,
            bucket matches Some(shard) ==> self@.bucket == Some(shard@),
    {
        match &self.bucket {
            Some(shard) => Some(shard.clone()),
            None => None,
        }
    }

    /// The number of posts authored here. The posts are numbered from 0
    /// without a gap.
    pub fn get_post_number(&self) -> (count: u64)
        ensures
            count == self@.posts.len(),
            store_ok(self@.posts),
    {
        self.posts.len()
    }

    /// The post of this actor whose sequence number `post_id` names.
    pub fn get_post(&self, post_id: &str) -> (found: Result<Option<&Post>, ParseError>)
        ensures
            match found {
                Err(reason) => post_id_address(post_id@) == Err::<PostAddressView, ParseError>(
                    reason,
                ),
                Ok(entry) => post_id_address(post_id@) matches Ok(address) && (entry is Some
                    <==> address.index < self@.posts.len()) && (entry matches Some(post)
                    ==> post@ == self@.posts[address.index as int]),
            },
    {
        match check_post_id(post_id) {
            Ok(address) => Ok(self.posts.get(address.index)),
            Err(reason) => Err(reason),
        }
    }

    /// Copies of all posts authored here, in the order of their creation.
    pub fn get_all_post(&self) -> (posts: Vec<Post>)
        ensures
            views(posts@) == self@.posts,
    {
        self.posts.all()
    }

    /// The number of cached posts.
    pub fn get_feed_number(&self) -> (count: u64)
        ensures
            self@.feed.dom().finite(),
            count == self@.feed.len(),
    {
        self.feed.len()
    }

    /// The post cached under `post_id`.
    pub fn get_feed(&self, post_id: &str) -> (entry: Option<&Post>)
        ensures
            entry is Some <==> self@.feed.contains_key(post_id@),
            entry matches Some(post) ==> post@ == self@.feed[post_id@],
    {
        self.feed.get(post_id)
    }

    /// The `n` most recently created posts of the cache, the most recent
    /// first; all of them where the cache holds no more than `n`.
    pub fn get_latest_feed(&self, n: u64) -> (posts: Vec<Post>)
        ensures
            latest_posts(self@.feed, n as nat, views(posts@)),
            posts@.len() == if n <= self@.feed.len() { n as nat } else { self@.feed.len() },
            forall|j: int, k: int|
                0 <= j < k < posts@.len() ==> (#[trigger] posts@[j]).created_at >= (
                #[trigger] posts@[k]).created_at,
    {
        self.feed.latest(n)
    }

    /// Starts a refresh of the cached storage shard.
    pub fn check_available_bucket(&self) -> (step: Step)
        ensures
            step@ == model::check_available_bucket(self@).1,
    {
        Step::Call(
            RemoteCall::GetAvailableShard { directory: self.root_bucket.clone() },
            Pending::RefreshingShard,
        )
    }

    fn publish(
        &mut self,
        shard: Identity,
        caller: Identity,
        content: String,
        photo_url: Vec<String>,
        now: u64,
    ) -> (step: Step)
        ensures
            final(self)@ == model::publish(
                old(self)@,
                shard@,
                caller@,
                content@,
                views(photo_url@),
                now,
            ).0,
            step@ == model::publish(old(self)@, shard@, caller@, content@, views(photo_url@), now).1,
    {
        let post = self.posts.create(&shard, &self.actor, &caller, content, photo_url, now);
        let post_id = post.post_id.clone();
        Step::Call(RemoteCall::StorePost { shard, post }, Pending::StoringPost { caller, post_id })
    }

    /// The owner creates a post at the time `now`.
    pub fn create_post(
        &mut self,
        caller: Identity,
        content: String,
        photo_url: Vec<String>,
        now: u64,
    ) -> (step: Step)
        ensures
            final(self)@ == model::create_post(
                old(self)@,
                caller@,
                content@,
                views(photo_url@),
                now,
            ).0,
            step@ == model::create_post(old(self)@, caller@, content@, views(photo_url@), now).1,
    {
        if !(caller == self.owner) {
            return Step::Failed(Failure::Unauthorized);
        }
        let cached = self.get_bucket();
        match cached {
            Some(shard) => self.publish(shard, caller, content, photo_url, now),
            None => Step::Call(
                RemoteCall::GetAvailableShard { directory: self.root_bucket.clone() },
                Pending::ResolvingShard { caller, content, photo_url },
            ),
        }
    }

    /// `caller` re-shares the post `post_id` of this actor at the time `now`.
    pub fn create_repost(&mut self, caller: Identity, post_id: String, now: u64) -> (step: Step)
        ensures
            final(self)@ == model::create_repost(old(self)@, caller@, post_id@, now).0,
            step@ == model::create_repost(old(self)@, caller@, post_id@, now).1,
    {
        let address = match check_post_id(post_id.as_str()) {
            Ok(address) => address,
            Err(reason) => {
                return Step::Failed(Failure::MalformedId(reason));
            },
        };
        let (author, reposted) = match self.posts.get(address.index) {
            Some(post) => (post.user.clone(), is_repost_user(post, &caller)),
            None => {
                return Step::Failed(Failure::UnknownPost);
            },
        };
        if reposted {
            return Step::Done(Outcome::Flag(false));
        }
        let repost = Repost { user: caller.clone(), created_at: now };
        let reposts = self.posts.add_repost(address.index, repost);
        Step::Call(
            RemoteCall::UpdateReposts { shard: address.shard, post_id: post_id.clone(), reposts },
            Pending::UpdatingReposts { caller, author, post_id },
        )
    }

    /// `caller` comments on the post `post_id` of this actor at the time `now`.
    pub fn create_comment(
        &mut self,
        caller: Identity,
        post_id: String,
        content: String,
        now: u64,
    ) -> (step: Step)
        ensures
            final(self)@ == model::create_comment(old(self)@, caller@, post_id@, content@, now).0,
            step@ == model::create_comment(old(self)@, caller@, post_id@, content@, now).1,
    {
        let address = match check_post_id(post_id.as_str()) {
            Ok(address) => address,
            Err(reason) => {
                return Step::Failed(Failure::MalformedId(reason));
            },
        };
        if address.index >= self.posts.len() {
            return Step::Failed(Failure::UnknownPost);
        }
        let comment = Comment { user: caller, content, created_at: now };
        let comments = self.posts.add_comment(address.index, comment);
        Step::Call(
            RemoteCall::UpdateComments { shard: address.shard, post_id, comments },
            Pending::UpdatingMarks,
        )
    }

    /// `caller` likes the post `post_id` of this actor at the time `now`.
    pub fn create_like(&mut self, caller: Identity, post_id: String, now: u64) -> (step: Step)
        ensures
            final(self)@ == model::create_like(old(self)@, caller@, post_id@, now).0,
            step@ == model::create_like(old(self)@, caller@, post_id@, now).1,
    {
        let address = match check_post_id(post_id.as_str()) {
            Ok(address) => address,
            Err(reason) => {
                return Step::Failed(Failure::MalformedId(reason));
            },
        };
        let liked = match self.posts.get(address.index) {
            Some(post) => is_like_user(post, &caller),
            None => {
                return Step::Failed(Failure::UnknownPost);
            },
        };
        if liked {
            return Step::Done(Outcome::Flag(false));
        }
        let like = Like { user: caller, created_at: now };
        let likes = self.posts.add_like(address.index, like);
        Step::Call(
            RemoteCall::UpdateLikes { shard: address.shard, post_id, likes },
            Pending::UpdatingMarks,
        )
    }

    /// Goes on with an ingestion from its place.
    fn advance(&self, ingestion: Ingestion) -> (step: Step)
        ensures
            step@ == model::advance(self@, ingestion@).1,
    {
        let Ingestion { kind, ids, at: start, single } = ingestion;
        let mut at: usize = start;
        while at < ids.len() && is_feed_in_post(&self.feed, &ids[at])
            invariant
                model::next_uncached(self@.feed, views(ids@), at as nat) == model::next_uncached(
                    self@.feed,
                    views(ids@),
                    start as nat,
                ),
            decreases ids@.len() - at,
        {
            assert(views(ids@)[at as int] == ids@[at as int]@);
            at += 1;
        }
        if at >= ids.len() {
            return Step::Done(
                if single {
                    Outcome::Flag(false)
                } else {
                    Outcome::Completed
                },
            );
        }
        assert(views(ids@)[at as int] == ids@[at as int]@);
        match check_post_id(ids[at].as_str()) {
            Err(reason) => Step::Failed(Failure::MalformedId(reason)),
            Ok(address) => {
                let post_id = ids[at].clone();
                Step::Call(
                    RemoteCall::GetPost { shard: address.shard, post_id },
                    Pending::Fetching(Ingestion { kind, ids, at, single }),
                )
            },
        }
    }

    /// Goes on after a post has been ingested.
    fn proceed(&self, ingestion: Ingestion) -> (step: Step)
        requires
            ingestion.at < ingestion.ids@.len(),
        ensures
            step@ == model::proceed(self@, ingestion@).1,
    {
        if ingestion.single {
            Step::Done(Outcome::Flag(true))
        } else {
            let Ingestion { kind, ids, at, single } = ingestion;
            let count = ids.len();
            assert(at < count);
            self.advance(Ingestion { kind, ids, at: at + 1, single })
        }
    }

    /// Takes in the post that the shard has served for an ingestion.
    fn ingest(&mut self, ingestion: Ingestion, post: Post) -> (step: Step)
        requires
            ingestion.at < ingestion.ids@.len(),
        ensures
            final(self)@ == model::ingest(old(self)@, ingestion@, post@).0,
            step@ == model::ingest(old(self)@, ingestion@, post@).1,
    {
        assert(views(ingestion.ids@)[ingestion.at as int] == ingestion.ids@[ingestion.at as int]@);
        let reshared = is_repost_user(&post, &self.owner);
        let added = self.feed.insert(ingestion.ids[ingestion.at].as_str(), post);
        if !added {
            if ingestion.single {
                Step::Done(Outcome::Flag(false))
            } else {
                let Ingestion { kind, ids, at, single } = ingestion;
                let count = ids.len();
                assert(at < count);
                self.advance(Ingestion { kind, ids, at: at + 1, single })
            }
        } else {
            let about_post = match ingestion.kind {
                NoticeKind::Post => true,
                _ => false,
            };
            if !about_post && reshared {
                Step::Call(
                    RemoteCall::GetFollowers {
                        graph: self.user_actor.clone(),
                        user: self.owner.clone(),
                    },
                    Pending::FindingOwnFollowers(ingestion),
                )
            } else {
                self.proceed(ingestion)
            }
        }
    }

    /// A notice arrives that `post_id` is a post to show.
    pub fn receive_feed(&self, post_id: String) -> (step: Step)
        ensures
            step@ == model::receive(self@, NoticeKind::Post, seq![post_id@], true).1,
    {
        let ids = vec![post_id];
        assert(views(ids@) =~= seq![post_id@]);
        self.advance(Ingestion { kind: NoticeKind::Post, ids, at: 0, single: true })
    }

    /// Notices arrive that `post_id_array` are posts to show.
    pub fn batch_receive_feed(&self, post_id_array: Vec<String>) -> (step: Step)
        ensures
            step@ == model::receive(self@, NoticeKind::Post, views(post_id_array@), false).1,
    {
        self.advance(
            Ingestion { kind: NoticeKind::Post, ids: post_id_array, at: 0, single: false },
        )
    }

    /// A notice arrives that `post_id` has a new comment.
    pub fn receive_comment(&self, post_id: String) -> (step: Step)
        ensures
            step@ == model::receive(self@, NoticeKind::Comment, seq![post_id@], true).1,
    {
        let ids = vec![post_id];
        assert(views(ids@) =~= seq![post_id@]);
        self.advance(Ingestion { kind: NoticeKind::Comment, ids, at: 0, single: true })
    }

    /// Notices arrive that `post_id_array` have new comments.
    pub fn batch_receive_comment(&self, post_id_array: Vec<String>) -> (step: Step)
        ensures
            step@ == model::receive(self@, NoticeKind::Comment, views(post_id_array@), false).1,
    {
        self.advance(
            Ingestion { kind: NoticeKind::Comment, ids: post_id_array, at: 0, single: false },
        )
    }

    /// A notice arrives that `post_id` has a new like.
    pub fn receive_like(&self, post_id: String) -> (step: Step)
        ensures
            step@ == model::receive(self@, NoticeKind::Like, seq![post_id@], true).1,
    {
        let ids = vec![post_id];
        assert(views(ids@) =~= seq![post_id@]);
        self.advance(Ingestion { kind: NoticeKind::Like, ids, at: 0, single: true })
    }

    /// Notices arrive that `post_id_array` have new likes.
    pub fn batch_receive_like(&self, post_id_array: Vec<String>) -> (step: Step)
        ensures
            step@ == model::receive(self@, NoticeKind::Like, views(post_id_array@), false).1,
    {
        self.advance(
            Ingestion { kind: NoticeKind::Like, ids: post_id_array, at: 0, single: false },
        )
    }

    /// Who learns of a re-share by `caller`.
    fn repost_audience(caller: Identity, followers: &Vec<Identity>, author: &Identity) -> (audience:
        Vec<Identity>)
        ensures
            views(audience@) == model::repost_audience(caller@, views(followers@), author@),
    {
        let mut audience: Vec<Identity> = Vec::new();
        proof {
            lemma_views_push(audience@, caller);
        }
        audience.push(caller);
        let mut at: usize = 0;
        assert(views(followers@).take(0) =~= Seq::<Seq<u8>>::empty());
        assert(views(audience@) =~= seq![caller@]);
        while at < followers.len()
            invariant
                at <= followers@.len(),
                views(audience@) == seq![caller@] + model::without(
                    views(followers@).take(at as int),
                    author@,
                ),
            decreases followers@.len() - at,
        {
            proof {
                let longer = views(followers@).take(at + 1);
                assert(longer.drop_last() =~= views(followers@).take(at as int));
                assert(longer.last() == followers@[at as int]@);
            }
            if !(followers[at] == *author) {
                let follower = followers[at].clone();
                proof {
                    lemma_views_push(audience@, follower);
                }
                audience.push(follower);
            }
            at += 1;
        }
        assert(views(followers@).take(at as int) =~= views(followers@));
        audience
    }

    /// Takes the reply to the call of a step, and gives the next step.
    /// `now` is the time at which the reply has arrived.
    pub fn resume(&mut self, pending: Pending, reply: Reply, now: u64) -> (step: Step)
        ensures
            final(self)@ == model::resume(old(self)@, pending@, reply@, now).0,
            step@ == model::resume(old(self)@, pending@, reply@, now).1,
    {
        if let Reply::Failed = reply {
            return Step::Failed(Failure::RemoteCall);
        }
        match pending {
            Pending::ResolvingShard { caller, content, photo_url } => match reply {
                Reply::Shard(Some(shard)) => {
                    self.bucket = Some(shard.clone());
                    self.publish(shard, caller, content, photo_url, now)
                },
                Reply::Shard(None) => Step::Failed(Failure::NoShard),
                _ => Step::Failed(Failure::UnexpectedReply),
            },
            Pending::RefreshingShard => match reply {
                Reply::Shard(Some(shard)) => {
                    self.bucket = Some(shard);
                    Step::Done(Outcome::Flag(true))
                },
                Reply::Shard(None) => Step::Failed(Failure::NoShard),
                _ => Step::Failed(Failure::UnexpectedReply),
            },
            Pending::StoringPost { caller, post_id } => match reply {
                Reply::Ack(true) => Step::Call(
                    RemoteCall::GetFollowers { graph: self.user_actor.clone(), user: caller },
                    Pending::FindingFollowers { post_id },
                ),
                Reply::Ack(false) => Step::Failed(Failure::NotAcknowledged),
                _ => Step::Failed(Failure::UnexpectedReply),
            },
            Pending::FindingFollowers { post_id } => match reply {
                Reply::Followers(followers) => {
                    if followers.len() > 0 {
                        Step::Call(
                            RemoteCall::Notify {
                                notifier: self.post_fetch_actor.clone(),
                                delivery: Delivery::Primary,
                                audience: followers,
                                post_id: post_id.clone(),
                            },
                            Pending::Announcing { post_id },
                        )
                    } else {
                        Step::Done(Outcome::PostId(post_id))
                    }
                },
                _ => Step::Failed(Failure::UnexpectedReply),
            },
            Pending::Announcing { post_id } => match reply {
                Reply::Delivered => Step::Done(Outcome::PostId(post_id)),
                _ => Step::Failed(Failure::UnexpectedReply),
            },
            Pending::UpdatingReposts { caller, author, post_id } => match reply {
                Reply::Ack(true) => Step::Call(
                    RemoteCall::GetFollowers {
                        graph: self.user_actor.clone(),
                        user: caller.clone(),
                    },
                    Pending::FindingRepostAudience { caller, author, post_id },
                ),
                Reply::Ack(false) => Step::Failed(Failure::NotAcknowledged),
                _ => Step::Failed(Failure::UnexpectedReply),
            },
            Pending::FindingRepostAudience { caller, author, post_id } => match reply {
                Reply::Followers(followers) => Step::Call(
                    RemoteCall::Notify {
                        notifier: self.post_fetch_actor.clone(),
                        delivery: Delivery::Secondary,
                        audience: Self::repost_audience(caller, &followers, &author),
                        post_id,
                    },
                    Pending::AnnouncingRepost,
                ),
                _ => Step::Failed(Failure::UnexpectedReply),
            },
            Pending::AnnouncingRepost => match reply {
                Reply::Delivered => Step::Done(Outcome::Flag(true)),
                _ => Step::Failed(Failure::UnexpectedReply),
            },
            Pending::UpdatingMarks => match reply {
                Reply::Ack(true) => Step::Done(Outcome::Flag(true)),
                Reply::Ack(false) => Step::Failed(Failure::NotAcknowledged),
                _ => Step::Failed(Failure::UnexpectedReply),
            },
            Pending::Fetching(ingestion) => match reply {
                Reply::Post(found) => {
                    if ingestion.at >= ingestion.ids.len() {
                        return Step::Failed(Failure::UnexpectedReply);
                    }
                    match found {
                        Some(post) => self.ingest(ingestion, post),
                        None => Step::Failed(Failure::MissingPost),
                    }
                },
                _ => Step::Failed(Failure::UnexpectedReply),
            },
            Pending::FindingOwnFollowers(ingestion) => match reply {
                Reply::Followers(followers) => {
                    if ingestion.at >= ingestion.ids.len() {
                        return Step::Failed(Failure::UnexpectedReply);
                    }
                    assert(views(ingestion.ids@)[ingestion.at as int]
                        == ingestion.ids@[ingestion.at as int]@);
                    let notifier = match ingestion.kind {
                        NoticeKind::Post => self.post_fetch_actor.clone(),
                        NoticeKind::Comment => self.comment_fetch_actor.clone(),
                        NoticeKind::Like => self.like_fetch_actor.clone(),
                    };
                    let post_id = ingestion.ids[ingestion.at].clone();
                    Step::Call(
                        RemoteCall::Notify {
                            notifier,
                            delivery: Delivery::Secondary,
                            audience: followers,
                            post_id,
                        },
                        Pending::Renotifying(ingestion),
                    )
                },
                _ => Step::Failed(Failure::UnexpectedReply),
            },
            Pending::Renotifying(ingestion) => match reply {
                Reply::Delivered => {
                    if ingestion.at >= ingestion.ids.len() {
                        return Step::Failed(Failure::UnexpectedReply);
                    }
                    self.proceed(ingestion)
                },
                _ => Step::Failed(Failure::UnexpectedReply),
            },
        }
    }
}

} // verus!
