//! What holds of every run of the feed actor.

use crate::address::{
    lemma_address_round_trip, post_id_address, text_is_faithful, ParseError, PostAddressView,
};
use crate::model::{
    advance, create_comment, create_like, create_post, create_repost, ingest, next_uncached,
    publish, receive, resume, FeedView,
};
use crate::post::{liked_by, marks_are_unique, reposted_by, LikeView, PostView, RepostView};
use crate::protocol::{
    IngestionView, NoticeKind, OutcomeView, PendingView, RemoteCallView, ReplyView, StepView,
};
use crate::store::{names_own_index, store_ok};
use vstd::prelude::*;

verus! {

/// Whether `after` holds every cached post of `before`, unchanged.
pub open spec fn cache_extends(before: FeedView, after: FeedView) -> bool {
    forall|id: Seq<char>| #[trigger]
        before.feed.contains_key(id) ==> after.feed.contains_key(id) && after.feed[id]
            == before.feed[id]
}

/// Posts are numbered in the order of their creation, from 0 and without a
/// gap: in a state with `n` posts the next post gets the number `n` and an
/// identifier that names `n`, and becomes the last of `n + 1` posts.
pub proof fn lemma_posts_are_numbered(
    s: FeedView,
    shard: Seq<u8>,
    caller: Seq<u8>,
    content: Seq<char>,
    photo_url: Seq<Seq<char>>,
    now: u64,
)
    requires
        store_ok(s.posts),
        s.posts.len() <= u64::MAX,
        text_is_faithful(shard),
        text_is_faithful(caller),
    ensures
        ({
            let (t, step) = publish(s, shard, caller, content, photo_url, now);
            &&& t.posts.len() == s.posts.len() + 1
            &&& t.posts.drop_last() == s.posts
            &&& t.posts.last().index == s.posts.len()
            &&& post_id_address(t.posts.last().post_id) == Ok::<PostAddressView, ParseError>(
                PostAddressView { shard, author: caller, index: s.posts.len() as u64 },
            )
            &&& step matches StepView::Call(RemoteCallView::StorePost { post, .. }, _) && post
                == t.posts.last()
            &&& store_ok(t.posts)
        }),
{
    let (t, step) = publish(s, shard, caller, content, photo_url, now);
    lemma_address_round_trip(shard, caller, s.posts.len() as u64);
    assert(t.posts.drop_last() =~= s.posts);
    assert forall|k: int| 0 <= k < t.posts.len() implies {
        &&& (#[trigger] t.posts[k]).index == k
        &&& names_own_index(t.posts[k])
        &&& marks_are_unique(t.posts[k])
    } by {
        if k < s.posts.len() {
            assert(t.posts[k] == s.posts[k]);
        }
    }
}

/// A like by the same caller counts once. Where a like is taken, exactly one
/// entry is appended to the likes of the post, and the caller is told `true`
/// once the shard has taken the update. Whoever has liked a post and likes
/// it again is told `false` at once: nothing changes and nobody is called.
pub proof fn lemma_like_is_idempotent(
    s: FeedView,
    caller: Seq<u8>,
    post_id: Seq<char>,
    now: u64,
    later: u64,
)
    ensures
        ({
            let (t, first) = create_like(s, caller, post_id, now);
            let again = create_like(t, caller, post_id, later);
            &&& first is Call ==> {
                &&& post_id_address(post_id) matches Ok(address)
                &&& address.index < s.posts.len()
                &&& t.posts == s.posts.update(address.index as int, t.posts[address.index as int])
                &&& t.posts[address.index as int].like == s.posts[address.index as int].like.push(
                    LikeView { user: caller, created_at: now },
                )
                &&& first matches StepView::Call(_, pending) && resume(
                    t,
                    pending,
                    ReplyView::Ack(true),
                    later,
                ) == (t, StepView::Done(OutcomeView::Flag(true)))
                &&& again == (t, StepView::Done(OutcomeView::Flag(false)))
            }
            &&& first == StepView::Done(OutcomeView::Flag(false)) ==> t == s && again == (
                s,
                first,
            )
            &&& first is Failed ==> t == s
        }),
{
    let (t, first) = create_like(s, caller, post_id, now);
    if first is Call {
        let address = post_id_address(post_id)->Ok_0;
        let at = address.index as int;
        let likes = t.posts[at].like;
        assert(likes[likes.len() - 1].user == caller);
        assert(liked_by(t.posts[at], caller));
    }
}

/// A re-share by the same caller counts once. Where a re-share is taken,
/// exactly one entry is appended to the re-shares of the post. Whoever has
/// re-shared a post and does so again is told `false` at once: nothing
/// changes and nobody is called.
pub proof fn lemma_repost_is_idempotent(
    s: FeedView,
    caller: Seq<u8>,
    post_id: Seq<char>,
    now: u64,
    later: u64,
)
    ensures
        ({
            let (t, first) = create_repost(s, caller, post_id, now);
            let again = create_repost(t, caller, post_id, later);
            &&& first is Call ==> {
                &&& post_id_address(post_id) matches Ok(address)
                &&& address.index < s.posts.len()
                &&& t.posts == s.posts.update(address.index as int, t.posts[address.index as int])
                &&& t.posts[address.index as int].repost
                    == s.posts[address.index as int].repost.push(
                    RepostView { user: caller, created_at: now },
                )
                &&& again == (t, StepView::Done(OutcomeView::Flag(false)))
            }
            &&& first == StepView::Done(OutcomeView::Flag(false)) ==> t == s && again == (
                s,
                first,
            )
            &&& first is Failed ==> t == s
        }),
{
    let (t, first) = create_repost(s, caller, post_id, now);
    if first is Call {
        let address = post_id_address(post_id)->Ok_0;
        let at = address.index as int;
        let reposts = t.posts[at].repost;
        assert(reposts[reposts.len() - 1].user == caller);
        assert(reposted_by(t.posts[at], caller));
    }
}

/// Nobody re-shares or likes a post twice, whatever the callers do.
pub proof fn lemma_marks_stay_unique(
    s: FeedView,
    caller: Seq<u8>,
    post_id: Seq<char>,
    content: Seq<char>,
    now: u64,
)
    requires
        store_ok(s.posts),
    ensures
        store_ok(create_repost(s, caller, post_id, now).0.posts),
        store_ok(create_like(s, caller, post_id, now).0.posts),
        store_ok(create_comment(s, caller, post_id, content, now).0.posts),
{
    let reposted = create_repost(s, caller, post_id, now).0.posts;
    assert forall|k: int| 0 <= k < reposted.len() implies {
        &&& (#[trigger] reposted[k]).index == k
        &&& names_own_index(reposted[k])
        &&& marks_are_unique(reposted[k])
    } by {
        let before = s.posts[k];
        assert(before.index == k);
        if reposted[k] != before {
            let after = reposted[k];
            assert forall|i: int, j: int| 0 <= i < j < after.repost.len() implies (
            #[trigger] after.repost[i]).user != (#[trigger] after.repost[j]).user by {
                if j == before.repost.len() {
                    assert(before.repost[i].user != caller);
                } else {
                    assert(before.repost[i].user != before.repost[j].user);
                }
            }
        }
    }
    let liked = create_like(s, caller, post_id, now).0.posts;
    assert forall|k: int| 0 <= k < liked.len() implies {
        &&& (#[trigger] liked[k]).index == k
        &&& names_own_index(liked[k])
        &&& marks_are_unique(liked[k])
    } by {
        let before = s.posts[k];
        assert(before.index == k);
        if liked[k] != before {
            let after = liked[k];
            assert forall|i: int, j: int| 0 <= i < j < after.like.len() implies (
            #[trigger] after.like[i]).user != (#[trigger] after.like[j]).user by {
                if j == before.like.len() {
                    assert(before.like[i].user != caller);
                } else {
                    assert(before.like[i].user != before.like[j].user);
                }
            }
        }
    }
    let commented = create_comment(s, caller, post_id, content, now).0.posts;
    assert forall|k: int| 0 <= k < commented.len() implies {
        &&& (#[trigger] commented[k]).index == k
        &&& names_own_index(commented[k])
        &&& marks_are_unique(commented[k])
    } by {
        assert(s.posts[k].index == k);
    }
}

/// The store stays sound when a post is created, at once or after the
/// directory's reply, and whatever other reply arrives.
pub proof fn lemma_store_stays_sound(
    s: FeedView,
    caller: Seq<u8>,
    content: Seq<char>,
    photo_url: Seq<Seq<char>>,
    pending: PendingView,
    reply: ReplyView,
    now: u64,
)
    requires
        store_ok(s.posts),
        s.posts.len() <= u64::MAX,
        text_is_faithful(caller),
        s.bucket matches Some(shard) ==> text_is_faithful(shard),
        reply matches ReplyView::Shard(Some(shard)) ==> text_is_faithful(shard),
        pending matches PendingView::ResolvingShard { caller: author, .. } ==> text_is_faithful(
            author,
        ),
    ensures
        store_ok(create_post(s, caller, content, photo_url, now).0.posts),
        store_ok(resume(s, pending, reply, now).0.posts),
{
    if caller == s.owner {
        if let Some(shard) = s.bucket {
            lemma_posts_are_numbered(s, shard, caller, content, photo_url, now);
        }
    }
    match (pending, reply) {
        (
            PendingView::ResolvingShard { caller: author, content: text, photo_url: urls },
            ReplyView::Shard(Some(shard)),
        ) => {
            lemma_posts_are_numbered(
                FeedView { bucket: Some(shard), ..s },
                shard,
                author,
                text,
                urls,
                now,
            );
        },
        (PendingView::Fetching(ingestion), ReplyView::Post(Some(post))) => {
            if ingestion.at < ingestion.ids.len() {
                let cached = FeedView {
                    feed: s.feed.insert(ingestion.ids[ingestion.at as int], post),
                    ..s
                };
                let next = IngestionView { at: ingestion.at + 1, ..ingestion };
                lemma_fetch_is_for_uncached(s, next);
                lemma_fetch_is_for_uncached(cached, next);
            }
        },
        (PendingView::Renotifying(ingestion), ReplyView::Delivered) => {
            lemma_fetch_is_for_uncached(s, IngestionView { at: ingestion.at + 1, ..ingestion });
        },
        _ => {},
    }
}

/// What `next_uncached` skips is cached, and where it stops before the end
/// it stops at an identifier that is not.
pub proof fn lemma_next_uncached(feed: Map<Seq<char>, PostView>, ids: Seq<Seq<char>>, at: nat)
    ensures
        at <= next_uncached(feed, ids, at),
        at <= ids.len() ==> next_uncached(feed, ids, at) <= ids.len(),
        forall|k: int| at <= k < next_uncached(feed, ids, at) ==> feed.contains_key(#[trigger] ids[k]),
        next_uncached(feed, ids, at) < ids.len() ==> !feed.contains_key(
            ids[next_uncached(feed, ids, at) as int],
        ),
    decreases ids.len() - at,
{
    if at < ids.len() && feed.contains_key(ids[at as int]) {
        lemma_next_uncached(feed, ids, at + 1);
    }
}

/// A post is asked of its shard only while it is not cached: an ingestion
/// that goes on changes nothing, and where it has the host fetch a post, the
/// post is the one at its new place and is not in the cache.
pub proof fn lemma_fetch_is_for_uncached(s: FeedView, ingestion: IngestionView)
    ensures
        advance(s, ingestion).0 == s,
        advance(s, ingestion).1 matches StepView::Call(call, pending) ==> {
            &&& call matches RemoteCallView::GetPost { post_id, .. }
            &&& pending matches PendingView::Fetching(next)
            &&& next.ids == ingestion.ids
            &&& ingestion.at <= next.at < next.ids.len()
            &&& post_id == next.ids[next.at as int]
            &&& !s.feed.contains_key(post_id)
        },
{
    lemma_next_uncached(s.feed, ingestion.ids, ingestion.at);
}

/// A notice of a cached post changes nothing. Once the shard has served
/// `post` for an identifier that was not cached, the cache holds `post`
/// there, and every later notice for that identifier, of whatever kind, is
/// told `false` at once: the state stays as it is and nothing is fetched.
pub proof fn lemma_receive_is_idempotent(
    s: FeedView,
    ingestion: IngestionView,
    post: PostView,
    kind: NoticeKind,
)
    requires
        ingestion.at < ingestion.ids.len(),
        !s.feed.contains_key(ingestion.ids[ingestion.at as int]),
    ensures
        ({
            let post_id = ingestion.ids[ingestion.at as int];
            let t = ingest(s, ingestion, post).0;
            &&& t.feed == s.feed.insert(post_id, post)
            &&& receive(t, kind, seq![post_id], true) == (
                t,
                StepView::Done(OutcomeView::Flag(false)),
            )
        }),
{
    let post_id = ingestion.ids[ingestion.at as int];
    let t = ingest(s, ingestion, post).0;
    let cached = FeedView { feed: s.feed.insert(post_id, post), ..s };
    lemma_fetch_is_for_uncached(cached, IngestionView { at: ingestion.at + 1, ..ingestion });
    let ids = seq![post_id];
    assert(next_uncached(t.feed, ids, 1) == 1);
    assert(next_uncached(t.feed, ids, 0) == 1);
}

/// A cached post is never changed nor dropped: whatever reply arrives, the
/// cache afterwards holds all that it held, as it held it.
pub proof fn lemma_cache_only_grows(s: FeedView, pending: PendingView, reply: ReplyView, now: u64)
    ensures
        cache_extends(s, resume(s, pending, reply, now).0),
{
    let t = resume(s, pending, reply, now).0;
    match (pending, reply) {
        (PendingView::Fetching(ingestion), ReplyView::Post(Some(post))) => {
            if ingestion.at < ingestion.ids.len() {
                let post_id = ingestion.ids[ingestion.at as int];
                let cached = FeedView { feed: s.feed.insert(post_id, post), ..s };
                let next = IngestionView { at: ingestion.at + 1, ..ingestion };
                lemma_fetch_is_for_uncached(s, next);
                lemma_fetch_is_for_uncached(cached, next);
            }
        },
        (PendingView::Renotifying(ingestion), ReplyView::Delivered) => {
            lemma_fetch_is_for_uncached(s, IngestionView { at: ingestion.at + 1, ..ingestion });
        },
        _ => {},
    }
}

/// The operations that a caller starts leave the cache as it is.
pub proof fn lemma_requests_keep_cache(
    s: FeedView,
    caller: Seq<u8>,
    post_id: Seq<char>,
    content: Seq<char>,
    photo_url: Seq<Seq<char>>,
    ids: Seq<Seq<char>>,
    kind: NoticeKind,
    single: bool,
    now: u64,
)
    ensures
        create_post(s, caller, content, photo_url, now).0.feed == s.feed,
        create_repost(s, caller, post_id, now).0.feed == s.feed,
        create_comment(s, caller, post_id, content, now).0.feed == s.feed,
        create_like(s, caller, post_id, now).0.feed == s.feed,
        receive(s, kind, ids, single).0 == s,
{
    lemma_fetch_is_for_uncached(s, IngestionView { kind, ids, at: 0, single });
}

/// Whether `after` is `before` with nothing taken away: the same post but
/// for re-shares, likes and comments that were appended.
pub open spec fn post_extends(before: PostView, after: PostView) -> bool {
    &&& after.post_id == before.post_id
    &&& after.feed_canister == before.feed_canister
    &&& after.index == before.index
    &&& after.user == before.user
    &&& after.content == before.content
    &&& after.photo_url == before.photo_url
    &&& after.created_at == before.created_at
    &&& before.repost.is_prefix_of(after.repost)
    &&& before.like.is_prefix_of(after.like)
    &&& before.comment.is_prefix_of(after.comment)
}

/// Whether `after` holds every post of `before` at its place, with nothing
/// taken away.
pub open spec fn store_extends(before: FeedView, after: FeedView) -> bool {
    &&& before.posts.len() <= after.posts.len()
    &&& forall|k: int|
        0 <= k < before.posts.len() ==> post_extends(before.posts[k], #[trigger] after.posts[k])
}

/// A post keeps its place, its identifier and its content for good, and what
/// users attach to it is only ever appended: no request and no reply takes
/// anything away from the store.
pub proof fn lemma_store_only_grows(
    s: FeedView,
    caller: Seq<u8>,
    post_id: Seq<char>,
    content: Seq<char>,
    photo_url: Seq<Seq<char>>,
    pending: PendingView,
    reply: ReplyView,
    now: u64,
)
    ensures
        store_extends(s, create_post(s, caller, content, photo_url, now).0),
        store_extends(s, create_repost(s, caller, post_id, now).0),
        store_extends(s, create_comment(s, caller, post_id, content, now).0),
        store_extends(s, create_like(s, caller, post_id, now).0),
        store_extends(s, resume(s, pending, reply, now).0),
{
    assert forall|k: int| 0 <= k < s.posts.len() implies post_extends(s.posts[k], s.posts[k]) by {
        let post = s.posts[k];
        assert(post.repost.is_prefix_of(post.repost));
        assert(post.like.is_prefix_of(post.like));
        assert(post.comment.is_prefix_of(post.comment));
    }
    assert forall|k: int| 0 <= k < s.posts.len() implies post_extends(
        s.posts[k],
        #[trigger] create_repost(s, caller, post_id, now).0.posts[k],
    ) by {
        let before = s.posts[k];
        let after = create_repost(s, caller, post_id, now).0.posts[k];
        if after != before {
            assert(before.repost.is_prefix_of(after.repost));
        }
    }
    assert forall|k: int| 0 <= k < s.posts.len() implies post_extends(
        s.posts[k],
        #[trigger] create_like(s, caller, post_id, now).0.posts[k],
    ) by {
        let before = s.posts[k];
        let after = create_like(s, caller, post_id, now).0.posts[k];
        if after != before {
            assert(before.like.is_prefix_of(after.like));
        }
    }
    assert forall|k: int| 0 <= k < s.posts.len() implies post_extends(
        s.posts[k],
        #[trigger] create_comment(s, caller, post_id, content, now).0.posts[k],
    ) by {
        let before = s.posts[k];
        let after = create_comment(s, caller, post_id, content, now).0.posts[k];
        if after != before {
            assert(before.comment.is_prefix_of(after.comment));
        }
    }
    let created = create_post(s, caller, content, photo_url, now).0;
    assert forall|k: int| 0 <= k < s.posts.len() implies post_extends(
        s.posts[k],
        #[trigger] created.posts[k],
    ) by {
        assert(created.posts[k] == s.posts[k]);
    }
    let resumed = resume(s, pending, reply, now).0;
    match (pending, reply) {
        (PendingView::Fetching(ingestion), ReplyView::Post(Some(post))) => {
            if ingestion.at < ingestion.ids.len() {
                let cached = FeedView {
                    feed: s.feed.insert(ingestion.ids[ingestion.at as int], post),
                    ..s
                };
                let next = IngestionView { at: ingestion.at + 1, ..ingestion };
                lemma_fetch_is_for_uncached(s, next);
                lemma_fetch_is_for_uncached(cached, next);
            }
        },
        (PendingView::Renotifying(ingestion), ReplyView::Delivered) => {
            lemma_fetch_is_for_uncached(s, IngestionView { at: ingestion.at + 1, ..ingestion });
        },
        _ => {},
    }
    assert forall|k: int| 0 <= k < s.posts.len() implies post_extends(
        s.posts[k],
        #[trigger] resumed.posts[k],
    ) by {
        assert(resumed.posts[k] == s.posts[k]);
    }
}

/// A post that the shard is asked to store is a new one: it is the last of
/// the store and its number is the number of posts there were.
pub proof fn lemma_stored_posts_are_new(
    s: FeedView,
    caller: Seq<u8>,
    content: Seq<char>,
    photo_url: Seq<Seq<char>>,
    pending: PendingView,
    reply: ReplyView,
    now: u64,
)
    requires
        s.posts.len() <= u64::MAX,
    ensures
        ({
            let (t, step) = create_post(s, caller, content, photo_url, now);
            step matches StepView::Call(RemoteCallView::StorePost { post, .. }, _) ==> t.posts
                == s.posts.push(post) && post.index == s.posts.len()
        }),
        ({
            let (t, step) = resume(s, pending, reply, now);
            step matches StepView::Call(RemoteCallView::StorePost { post, .. }, _) ==> t.posts
                == s.posts.push(post) && post.index == s.posts.len()
        }),
        !(create_post(s, caller, content, photo_url, now).1 is Call) ==> create_post(
            s,
            caller,
            content,
            photo_url,
            now,
        ).0 == s,
{
    match (pending, reply) {
        (PendingView::Fetching(ingestion), ReplyView::Post(Some(post))) => {
            if ingestion.at < ingestion.ids.len() {
                let cached = FeedView {
                    feed: s.feed.insert(ingestion.ids[ingestion.at as int], post),
                    ..s
                };
                let next = IngestionView { at: ingestion.at + 1, ..ingestion };
                lemma_fetch_is_for_uncached(s, next);
                lemma_fetch_is_for_uncached(cached, next);
            }
        },
        (PendingView::Renotifying(ingestion), ReplyView::Delivered) => {
            lemma_fetch_is_for_uncached(s, IngestionView { at: ingestion.at + 1, ..ingestion });
        },
        _ => {},
    }
}

} // verus!
