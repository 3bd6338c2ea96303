//! The feed actor as a state machine over mathematical values.
//!
//! Each function here says, for a state and an input, what the state
//! becomes and which step the host is told to take. The executable actor is
//! proved to do exactly this.

use crate::address::post_id_address;
use crate::post::{liked_by, reposted_by, CommentView, LikeView, PostView, RepostView};
use crate::protocol::{
    Delivery, Failure, IngestionView, NoticeKind, OutcomeView, PendingView, RemoteCallView,
    ReplyView, StepView,
};
use crate::store::{new_post, with_comment, with_like, with_repost};
use vstd::prelude::*;

verus! {

/// The state of a feed actor.
pub struct FeedView {
    /// This actor's own identity.
    pub actor: Seq<u8>,
    /// The directory that hands out storage shards.
    pub root_bucket: Seq<u8>,
    /// The social graph.
    pub user_actor: Seq<u8>,
    /// The notifier for posts.
    pub post_fetch_actor: Seq<u8>,
    /// The notifier for comments.
    pub comment_fetch_actor: Seq<u8>,
    /// The notifier for likes.
    pub like_fetch_actor: Seq<u8>,
    /// The user whom this actor serves.
    pub owner: Seq<u8>,
    /// The storage shard in use, once one is known.
    pub bucket: Option<Seq<u8>>,
    /// The posts authored here, by sequence number.
    pub posts: Seq<PostView>,
    /// The posts this actor was told about, by identifier.
    pub feed: Map<Seq<char>, PostView>,
}

/// The notifier that passes on notices of this kind.
pub open spec fn notifier(s: FeedView, kind: NoticeKind) -> Seq<u8> {
    match kind {
        NoticeKind::Post => s.post_fetch_actor,
        NoticeKind::Comment => s.comment_fetch_actor,
        NoticeKind::Like => s.like_fetch_actor,
    }
}

/// `list` without every occurrence of `who`.
pub open spec fn without(list: Seq<Seq<u8>>, who: Seq<u8>) -> Seq<Seq<u8>>
    decreases list.len(),
{
    if list.len() == 0 {
        Seq::empty()
    } else if list.last() == who {
        without(list.drop_last(), who)
    } else {
        without(list.drop_last(), who).push(list.last())
    }
}

/// Who learns of a re-share: the one who re-shared, then their followers
/// but for the author of the post.
pub open spec fn repost_audience(
    caller: Seq<u8>,
    followers: Seq<Seq<u8>>,
    author: Seq<u8>,
) -> Seq<Seq<u8>> {
    seq![caller] + without(followers, author)
}

/// The first place at or behind `at` whose identifier is not cached, or the
/// length of `ids` where all that follow are cached.
pub open spec fn next_uncached(feed: Map<Seq<char>, PostView>, ids: Seq<Seq<char>>, at: nat) -> nat
    decreases ids.len() - at,
{
    if at < ids.len() && feed.contains_key(ids[at as int]) {
        next_uncached(feed, ids, at + 1)
    } else {
        at
    }
}

/// Stores a new post of `caller` locally and has `shard` store it too.
pub open spec fn publish(
    s: FeedView,
    shard: Seq<u8>,
    caller: Seq<u8>,
    content: Seq<char>,
    photo_url: Seq<Seq<char>>,
    now: u64,
) -> (FeedView, StepView) {
    let post = new_post(shard, s.actor, caller, s.posts.len() as u64, content, photo_url, now);
    (
        FeedView { posts: s.posts.push(post), ..s },
        StepView::Call(
            RemoteCallView::StorePost { shard, post },
            PendingView::StoringPost { caller, post_id: post.post_id },
        ),
    )
}

/// The owner creates a post. Where no shard is cached, the directory is
/// asked first.
pub open spec fn create_post(
    s: FeedView,
    caller: Seq<u8>,
    content: Seq<char>,
    photo_url: Seq<Seq<char>>,
    now: u64,
) -> (FeedView, StepView) {
    if caller != s.owner {
        (s, StepView::Failed(Failure::Unauthorized))
    } else {
        match s.bucket {
            Some(shard) => publish(s, shard, caller, content, photo_url, now),
            None => (
                s,
                StepView::Call(
                    RemoteCallView::GetAvailableShard { directory: s.root_bucket },
                    PendingView::ResolvingShard { caller, content, photo_url },
                ),
            ),
        }
    }
}

/// `caller` re-shares a post of this actor. A second re-share by the same
/// caller changes nothing and calls nobody.
pub open spec fn create_repost(s: FeedView, caller: Seq<u8>, post_id: Seq<char>, now: u64) -> (
    FeedView,
    StepView,
) {
    match post_id_address(post_id) {
        Err(reason) => (s, StepView::Failed(Failure::MalformedId(reason))),
        Ok(address) => if address.index >= s.posts.len() {
            (s, StepView::Failed(Failure::UnknownPost))
        } else if reposted_by(s.posts[address.index as int], caller) {
            (s, StepView::Done(OutcomeView::Flag(false)))
        } else {
            let before = s.posts[address.index as int];
            let after = with_repost(before, RepostView { user: caller, created_at: now });
            (
                FeedView { posts: s.posts.update(address.index as int, after), ..s },
                StepView::Call(
                    RemoteCallView::UpdateReposts {
                        shard: address.shard,
                        post_id,
                        reposts: after.repost,
                    },
                    PendingView::UpdatingReposts { caller, author: before.user, post_id },
                ),
            )
        },
    }
}

/// `caller` comments on a post of this actor.
pub open spec fn create_comment(
    s: FeedView,
    caller: Seq<u8>,
    post_id: Seq<char>,
    content: Seq<char>,
    now: u64,
) -> (FeedView, StepView) {
    match post_id_address(post_id) {
        Err(reason) => (s, StepView::Failed(Failure::MalformedId(reason))),
        Ok(address) => if address.index >= s.posts.len() {
            (s, StepView::Failed(Failure::UnknownPost))
        } else {
            let after = with_comment(
                s.posts[address.index as int],
                CommentView { user: caller, content, created_at: now },
            );
            (
                FeedView { posts: s.posts.update(address.index as int, after), ..s },
                StepView::Call(
                    RemoteCallView::UpdateComments {
                        shard: address.shard,
                        post_id,
                        comments: after.comment,
                    },
                    PendingView::UpdatingMarks,
                ),
            )
        },
    }
}

/// `caller` likes a post of this actor. A second like by the same caller
/// changes nothing and calls nobody.
pub open spec fn create_like(s: FeedView, caller: Seq<u8>, post_id: Seq<char>, now: u64) -> (
    FeedView,
    StepView,
) {
    match post_id_address(post_id) {
        Err(reason) => (s, StepView::Failed(Failure::MalformedId(reason))),
        Ok(address) => if address.index >= s.posts.len() {
            (s, StepView::Failed(Failure::UnknownPost))
        } else if liked_by(s.posts[address.index as int], caller) {
            (s, StepView::Done(OutcomeView::Flag(false)))
        } else {
            let after = with_like(
                s.posts[address.index as int],
                LikeView { user: caller, created_at: now },
            );
            (
                FeedView { posts: s.posts.update(address.index as int, after), ..s },
                StepView::Call(
                    RemoteCallView::UpdateLikes {
                        shard: address.shard,
                        post_id,
                        likes: after.like,
                    },
                    PendingView::UpdatingMarks,
                ),
            )
        },
    }
}

/// The cached shard is to be replaced by what the directory offers now.
pub open spec fn check_available_bucket(s: FeedView) -> (FeedView, StepView) {
    (
        s,
        StepView::Call(
            RemoteCallView::GetAvailableShard { directory: s.root_bucket },
            PendingView::RefreshingShard,
        ),
    )
}

/// What the caller of an ingestion is told when nothing is left to fetch.
pub open spec fn nothing_to_fetch(single: bool) -> OutcomeView {
    if single {
        OutcomeView::Flag(false)
    } else {
        OutcomeView::Completed
    }
}

/// Goes on with an ingestion from its place: skips what is cached and asks
/// the owning shard for the first post that is not.
pub open spec fn advance(s: FeedView, ingestion: IngestionView) -> (FeedView, StepView) {
    let at = next_uncached(s.feed, ingestion.ids, ingestion.at);
    if at >= ingestion.ids.len() {
        (s, StepView::Done(nothing_to_fetch(ingestion.single)))
    } else {
        match post_id_address(ingestion.ids[at as int]) {
            Err(reason) => (s, StepView::Failed(Failure::MalformedId(reason))),
            Ok(address) => (
                s,
                StepView::Call(
                    RemoteCallView::GetPost {
                        shard: address.shard,
                        post_id: ingestion.ids[at as int],
                    },
                    PendingView::Fetching(IngestionView { at, ..ingestion }),
                ),
            ),
        }
    }
}

/// Goes on after a post has been ingested: a single notice is done, a list
/// goes on with what follows.
pub open spec fn proceed(s: FeedView, ingestion: IngestionView) -> (FeedView, StepView) {
    if ingestion.single {
        (s, StepView::Done(OutcomeView::Flag(true)))
    } else {
        advance(s, IngestionView { at: ingestion.at + 1, ..ingestion })
    }
}

/// Notices of the given kind arrive for `ids`.
pub open spec fn receive(s: FeedView, kind: NoticeKind, ids: Seq<Seq<char>>, single: bool) -> (
    FeedView,
    StepView,
) {
    advance(s, IngestionView { kind, ids, at: 0, single })
}

/// The shard has served `post` for the identifier that the ingestion is at.
/// A post that is cached by now is left as it is. A first sight of a post
/// that the owner has re-shared is passed on to the owner's followers,
/// unless the notice is about the post itself.
pub open spec fn ingest(s: FeedView, ingestion: IngestionView, post: PostView) -> (
    FeedView,
    StepView,
) {
    let post_id = ingestion.ids[ingestion.at as int];
    if s.feed.contains_key(post_id) {
        if ingestion.single {
            (s, StepView::Done(OutcomeView::Flag(false)))
        } else {
            advance(s, IngestionView { at: ingestion.at + 1, ..ingestion })
        }
    } else {
        let cached = FeedView { feed: s.feed.insert(post_id, post), ..s };
        if ingestion.kind != NoticeKind::Post && reposted_by(post, s.owner) {
            (
                cached,
                StepView::Call(
                    RemoteCallView::GetFollowers { graph: s.user_actor, user: s.owner },
                    PendingView::FindingOwnFollowers(ingestion),
                ),
            )
        } else {
            proceed(cached, ingestion)
        }
    }
}

/// The step after a reply that the pending state was waiting for.
pub open spec fn resume(s: FeedView, pending: PendingView, reply: ReplyView, now: u64) -> (
    FeedView,
    StepView,
) {
    match (pending, reply) {
        (_, ReplyView::Failed) => (s, StepView::Failed(Failure::RemoteCall)),
        (PendingView::ResolvingShard { caller, content, photo_url }, ReplyView::Shard(found)) => {
            match found {
                Some(shard) => publish(
                    FeedView { bucket: Some(shard), ..s },
                    shard,
                    caller,
                    content,
                    photo_url,
                    now,
                ),
                None => (s, StepView::Failed(Failure::NoShard)),
            }
        },
        (PendingView::RefreshingShard, ReplyView::Shard(found)) => match found {
            Some(shard) => (
                FeedView { bucket: Some(shard), ..s },
                StepView::Done(OutcomeView::Flag(true)),
            ),
            None => (s, StepView::Failed(Failure::NoShard)),
        },
        (PendingView::StoringPost { caller, post_id }, ReplyView::Ack(accepted)) => if accepted {
            (
                s,
                StepView::Call(
                    RemoteCallView::GetFollowers { graph: s.user_actor, user: caller },
                    PendingView::FindingFollowers { post_id },
                ),
            )
        } else {
            (s, StepView::Failed(Failure::NotAcknowledged))
        },
        (PendingView::FindingFollowers { post_id }, ReplyView::Followers(followers)) => if followers.len()
            > 0 {
            (
                s,
                StepView::Call(
                    RemoteCallView::Notify {
                        notifier: s.post_fetch_actor,
                        delivery: Delivery::Primary,
                        audience: followers,
                        post_id,
                    },
                    PendingView::Announcing { post_id },
                ),
            )
        } else {
            (s, StepView::Done(OutcomeView::PostId(post_id)))
        },
        (PendingView::Announcing { post_id }, ReplyView::Delivered) => (
            s,
            StepView::Done(OutcomeView::PostId(post_id)),
        ),
        (PendingView::UpdatingReposts { caller, author, post_id }, ReplyView::Ack(accepted)) => if accepted {
            (
                s,
                StepView::Call(
                    RemoteCallView::GetFollowers { graph: s.user_actor, user: caller },
                    PendingView::FindingRepostAudience { caller, author, post_id },
                ),
            )
        } else {
            (s, StepView::Failed(Failure::NotAcknowledged))
        },
        (
            PendingView::FindingRepostAudience { caller, author, post_id },
            ReplyView::Followers(followers),
        ) => (
            s,
            StepView::Call(
                RemoteCallView::Notify {
                    notifier: s.post_fetch_actor,
                    delivery: Delivery::Secondary,
                    audience: repost_audience(caller, followers, author),
                    post_id,
                },
                PendingView::AnnouncingRepost,
            ),
        ),
        (PendingView::AnnouncingRepost, ReplyView::Delivered) => (
            s,
            StepView::Done(OutcomeView::Flag(true)),
        ),
        (PendingView::UpdatingMarks, ReplyView::Ack(accepted)) => if accepted {
            (s, StepView::Done(OutcomeView::Flag(true)))
        } else {
            (s, StepView::Failed(Failure::NotAcknowledged))
        },
        (PendingView::Fetching(ingestion), ReplyView::Post(found)) => if ingestion.at
            >= ingestion.ids.len() {
            (s, StepView::Failed(Failure::UnexpectedReply))
        } else {
            match found {
                Some(post) => ingest(s, ingestion, post),
                None => (s, StepView::Failed(Failure::MissingPost)),
            }
        },
        (PendingView::FindingOwnFollowers(ingestion), ReplyView::Followers(followers)) => if ingestion.at
            >= ingestion.ids.len() {
            (s, StepView::Failed(Failure::UnexpectedReply))
        } else {
            (
                s,
                StepView::Call(
                    RemoteCallView::Notify {
                        notifier: notifier(s, ingestion.kind),
                        delivery: Delivery::Secondary,
                        audience: followers,
                        post_id: ingestion.ids[ingestion.at as int],
                    },
                    PendingView::Renotifying(ingestion),
                ),
            )
        },
        (PendingView::Renotifying(ingestion), ReplyView::Delivered) => if ingestion.at
            >= ingestion.ids.len() {
            (s, StepView::Failed(Failure::UnexpectedReply))
        } else {
            proceed(s, ingestion)
        },
        _ => (s, StepView::Failed(Failure::UnexpectedReply)),
    }
}

} // verus!
