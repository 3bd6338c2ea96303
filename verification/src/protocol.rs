//! What passes between the actor and its host.
//!
//! An operation that needs remote work returns a [`Step::Call`]: the call
//! that the host is to make, and what the actor is waiting for meanwhile.
//! The host hands both the pending state and the reply back, and gets the
//! next step, until the operation is done or has failed.

use crate::address::ParseError;
use crate::identity::Identity;
use crate::post::{
    views, Comment, CommentView, Like, LikeView, Post, PostView, Repost, RepostView,
};
use vstd::prelude::*;

verus! {

/// What a notice is about, and so which notifier passes it on.
#[derive(Clone, Copy, Debug, PartialEq, Eq, Structural)]
pub enum NoticeKind {
    Post,
    Comment,
    Like,
}

/// To whom a notice goes.
#[derive(Clone, Copy, Debug, PartialEq, Eq, Structural)]
pub enum Delivery {
    /// To the followers of the post's author.
    Primary,
    /// To the followers of someone who re-shared the post.
    Secondary,
}

/// Why an operation was given up. What it had changed before stays changed.
#[derive(Clone, Copy, Debug, PartialEq, Eq, Structural)]
pub enum Failure {
    /// The caller is not the owner of this actor.
    Unauthorized,
    /// A text is no post identifier.
    MalformedId(ParseError),
    /// The identifier names a sequence number that this actor has not given out.
    UnknownPost,
    /// The directory has no storage shard to offer.
    NoShard,
    /// The storage shard did not accept what it was sent.
    NotAcknowledged,
    /// The storage shard does not hold the post.
    MissingPost,
    /// A remote call did not come back with a reply.
    RemoteCall,
    /// The reply is not one that the pending state waits for.
    UnexpectedReply,
}

/// A call that the host is to make for the actor.
#[derive(Debug)]
pub enum RemoteCall {
    /// Ask the directory for a storage shard. Replied to by [`Reply::Shard`].
    GetAvailableShard { directory: Identity },
    /// Have the shard store a new post. Replied to by [`Reply::Ack`].
    StorePost { shard: Identity, post: Post },
    /// Send the shard all re-shares of a post. Replied to by [`Reply::Ack`].
    UpdateReposts { shard: Identity, post_id: String, reposts: Vec<Repost> },
    /// Send the shard all comments of a post. Replied to by [`Reply::Ack`].
    UpdateComments { shard: Identity, post_id: String, comments: Vec<Comment> },
    /// Send the shard all likes of a post. Replied to by [`Reply::Ack`].
    UpdateLikes { shard: Identity, post_id: String, likes: Vec<Like> },
    /// Ask the shard for a post. Replied to by [`Reply::Post`].
    GetPost { shard: Identity, post_id: String },
    /// Ask the social graph who follows `user`. Replied to by [`Reply::Followers`].
    GetFollowers { graph: Identity, user: Identity },
    /// Tell a notifier that `audience` should learn of a post. Only the
    /// identifier travels. Replied to by [`Reply::Delivered`].
    Notify { notifier: Identity, delivery: Delivery, audience: Vec<Identity>, post_id: String },
}

/// The mathematical value of a [`RemoteCall`].
pub enum RemoteCallView {
    GetAvailableShard { directory: Seq<u8> },
    StorePost { shard: Seq<u8>, post: PostView },
    UpdateReposts { shard: Seq<u8>, post_id: Seq<char>, reposts: Seq<RepostView> },
    UpdateComments { shard: Seq<u8>, post_id: Seq<char>, comments: Seq<CommentView> },
    UpdateLikes { shard: Seq<u8>, post_id: Seq<char>, likes: Seq<LikeView> },
    GetPost { shard: Seq<u8>, post_id: Seq<char> },
    GetFollowers { graph: Seq<u8>, user: Seq<u8> },
    Notify { notifier: Seq<u8>, delivery: Delivery, audience: Seq<Seq<u8>>, post_id: Seq<char> },
}

impl View for RemoteCall {
    type V = RemoteCallView;

    open spec fn view(&self) -> RemoteCallView {
        match *self {
            RemoteCall::GetAvailableShard { directory } => RemoteCallView::GetAvailableShard {
                directory: directory@,
            },
            RemoteCall::StorePost { shard, post } => RemoteCallView::StorePost {
                shard: shard@,
                post: post@,
            },
            RemoteCall::UpdateReposts { shard, post_id, reposts } => RemoteCallView::UpdateReposts {
                shard: shard@,
                post_id: post_id@,
                reposts: views(reposts@),
            },
            RemoteCall::UpdateComments {
                shard,
                post_id,
                comments,
            } => RemoteCallView::UpdateComments {
                shard: shard@,
                post_id: post_id@,
                comments: views(comments@),
            },
            RemoteCall::UpdateLikes { shard, post_id, likes } => RemoteCallView::UpdateLikes {
                shard: shard@,
                post_id: post_id@,
                likes: views(likes@),
            },
            RemoteCall::GetPost { shard, post_id } => RemoteCallView::GetPost {
                shard: shard@,
                post_id: post_id@,
            },
            RemoteCall::GetFollowers { graph, user } => RemoteCallView::GetFollowers {
                graph: graph@,
                user: user@,
            },
            RemoteCall::Notify { notifier, delivery, audience, post_id } => RemoteCallView::Notify {
                notifier: notifier@,
                delivery,
                audience: views(audience@),
                post_id: post_id@,
            },
        }
    }
}

/// What came back from a remote call.
#[derive(Debug)]
pub enum Reply {
    /// The directory's answer: a storage shard, if it has one.
    Shard(Option<Identity>),
    /// The shard's answer to a store or an update: whether it accepted.
    Ack(bool),
    /// The shard's answer to a request for a post.
    Post(Option<Post>),
    /// The social graph's answer.
    Followers(Vec<Identity>),
    /// The notifier has taken the notice.
    Delivered,
    /// The call failed or was rejected.
    Failed,
}

/// The mathematical value of a [`Reply`].
pub enum ReplyView {
    Shard(Option<Seq<u8>>),
    Ack(bool),
    Post(Option<PostView>),
    Followers(Seq<Seq<u8>>),
    Delivered,
    Failed,
}

impl View for Reply {
    type V = ReplyView;

    open spec fn view(&self) -> ReplyView {
        match *self {
            Reply::Shard(Some(shard)) => ReplyView::Shard(Some(shard@)),
            Reply::Shard(None) => ReplyView::Shard(None),
            Reply::Ack(accepted) => ReplyView::Ack(accepted),
            Reply::Post(Some(post)) => ReplyView::Post(Some(post@)),
            Reply::Post(None) => ReplyView::Post(None),
            Reply::Followers(list) => ReplyView::Followers(views(list@)),
            Reply::Delivered => ReplyView::Delivered,
            Reply::Failed => ReplyView::Failed,
        }
    }
}

/// Where the ingestion of a list of notices stands.
#[derive(Debug)]
pub struct Ingestion {
    /// What the notices are about.
    pub kind: NoticeKind,
    /// The identifiers that the notices name.
    pub ids: Vec<String>,
    /// The place in `ids` of the identifier that is being worked on.
    pub at: usize,
    /// Whether the caller sent one notice and waits for a flag.
    pub single: bool,
}

/// The mathematical value of an [`Ingestion`].
pub struct IngestionView {
    pub kind: NoticeKind,
    pub ids: Seq<Seq<char>>,
    pub at: nat,
    pub single: bool,
}

impl View for Ingestion {
    type V = IngestionView;

    open spec fn view(&self) -> IngestionView {
        IngestionView {
            kind: self.kind,
            ids: views(self.ids@),
            at: self.at as nat,
            single: self.single,
        }
    }
}

/// What an operation is waiting for while the host makes a call.
#[derive(Debug)]
pub enum Pending {
    /// A new post waits for the directory to name a shard.
    ResolvingShard { caller: Identity, content: String, photo_url: Vec<String> },
    /// A refresh of the cached shard waits for the directory.
    RefreshingShard,
    /// A new post waits for the shard to store it.
    StoringPost { caller: Identity, post_id: String },
    /// A new post waits for its author's followers.
    FindingFollowers { post_id: String },
    /// A new post waits for the notifier.
    Announcing { post_id: String },
    /// A re-share waits for the shard to take the re-shares.
    UpdatingReposts { caller: Identity, author: Identity, post_id: String },
    /// A re-share waits for the followers of the one who re-shared.
    FindingRepostAudience { caller: Identity, author: Identity, post_id: String },
    /// A re-share waits for the notifier.
    AnnouncingRepost,
    /// A comment or a like waits for the shard to take the update.
    UpdatingMarks,
    /// An ingestion waits for the shard to serve a post.
    Fetching(Ingestion),
    /// An ingestion waits for the owner's followers.
    FindingOwnFollowers(Ingestion),
    /// An ingestion waits for the notifier.
    Renotifying(Ingestion),
}

/// The mathematical value of a [`Pending`].
pub enum PendingView {
    ResolvingShard { caller: Seq<u8>, content: Seq<char>, photo_url: Seq<Seq<char>> },
    RefreshingShard,
    StoringPost { caller: Seq<u8>, post_id: Seq<char> },
    FindingFollowers { post_id: Seq<char> },
    Announcing { post_id: Seq<char> },
    UpdatingReposts { caller: Seq<u8>, author: Seq<u8>, post_id: Seq<char> },
    FindingRepostAudience { caller: Seq<u8>, author: Seq<u8>, post_id: Seq<char> },
    AnnouncingRepost,
    UpdatingMarks,
    Fetching(IngestionView),
    FindingOwnFollowers(IngestionView),
    Renotifying(IngestionView),
}

impl View for Pending {
    type V = PendingView;

    open spec fn view(&self) -> PendingView {
        match *self {
            Pending::ResolvingShard { caller, content, photo_url } => PendingView::ResolvingShard {
                caller: caller@,
                content: content@,
                photo_url: views(photo_url@),
            },
            Pending::RefreshingShard => PendingView::RefreshingShard,
            Pending::StoringPost { caller, post_id } => PendingView::StoringPost {
                caller: caller@,
                post_id: post_id@,
            },
            Pending::FindingFollowers { post_id } => PendingView::FindingFollowers {
                post_id: post_id@,
            },
            Pending::Announcing { post_id } => PendingView::Announcing { post_id: post_id@ },
            Pending::UpdatingReposts { caller, author, post_id } => PendingView::UpdatingReposts {
                caller: caller@,
                author: author@,
                post_id: post_id@,
            },
            Pending::FindingRepostAudience {
                caller,
                author,
                post_id,
            } => PendingView::FindingRepostAudience {
                caller: caller@,
                author: author@,
                post_id: post_id@,
            },
            Pending::AnnouncingRepost => PendingView::AnnouncingRepost,
            Pending::UpdatingMarks => PendingView::UpdatingMarks,
            Pending::Fetching(ingestion) => PendingView::Fetching(ingestion@),
            Pending::FindingOwnFollowers(ingestion) => PendingView::FindingOwnFollowers(
                ingestion@,
            ),
            Pending::Renotifying(ingestion) => PendingView::Renotifying(ingestion@),
        }
    }
}

/// What a finished operation gives its caller.
#[derive(Debug)]
pub enum Outcome {
    /// The identifier of the post that was created.
    PostId(String),
    /// Whether the operation changed anything: `false` where the caller had
    /// re-shared or liked the post before, or the post was cached already.
    Flag(bool),
    /// A list of notices was worked through.
    Completed,
}

/// The mathematical value of an [`Outcome`].
pub enum OutcomeView {
    PostId(Seq<char>),
    Flag(bool),
    Completed,
}

impl View for Outcome {
    type V = OutcomeView;

    open spec fn view(&self) -> OutcomeView {
        match *self {
            Outcome::PostId(post_id) => OutcomeView::PostId(post_id@),
            Outcome::Flag(flag) => OutcomeView::Flag(flag),
            Outcome::Completed => OutcomeView::Completed,
        }
    }
}

/// What the host is to do next for an operation.
#[derive(Debug)]
pub enum Step {
    /// Make the call, then resume with the pending state and the reply.
    Call(RemoteCall, Pending),
    /// Answer the caller.
    Done(Outcome),
    /// Reject the caller's request.
    Failed(Failure),
}

/// The mathematical value of a [`Step`].
pub enum StepView {
    Call(RemoteCallView, PendingView),
    Done(OutcomeView),
    Failed(Failure),
}

impl View for Step {
    type V = StepView;

    open spec fn view(&self) -> StepView {
        match *self {
            Step::Call(call, pending) => StepView::Call(call@, pending@),
            Step::Done(outcome) => StepView::Done(outcome@),
            Step::Failed(failure) => StepView::Failed(failure),
        }
    }
}

} // verus!
