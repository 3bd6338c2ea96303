use feed::address::ParseError;
use feed::feed::{Feed, FeedInitArg};
use feed::identity::Identity;
use feed::post::{Post, Repost};
use feed::protocol::{Delivery, Failure, Outcome, Pending, RemoteCall, Reply, Step};
use std::collections::HashMap;

fn identity(byte: u8) -> Identity {
    Identity::from_bytes(vec![byte, 0, 0, 0, 0, 0, 0, 0, 1, 1]).unwrap()
}

fn actor() -> Identity {
    identity(10)
}

fn directory() -> Identity {
    identity(11)
}

fn graph() -> Identity {
    identity(12)
}

fn post_notifier() -> Identity {
    identity(13)
}

fn comment_notifier() -> Identity {
    identity(14)
}

fn like_notifier() -> Identity {
    identity(15)
}

fn owner() -> Identity {
    identity(20)
}

fn visitor() -> Identity {
    identity(21)
}

fn shard() -> Identity {
    identity(30)
}

fn new_feed() -> Feed {
    Feed::init_function(
        actor(),
        FeedInitArg {
            root_bucket: directory(),
            user_actor: graph(),
            post_fetch_actor: post_notifier(),
            comment_fetch_actor: comment_notifier(),
            like_fetch_actor: like_notifier(),
            owner: owner(),
        },
    )
}

fn id_of(shard: &Identity, author: &Identity, index: u64) -> String {
    format!("{}#{}#{}", shard.to_text(), author.to_text(), index)
}

fn remote_post(id: &str, created_at: u64, resharers: &[Identity]) -> Post {
    Post {
        post_id: id.to_string(),
        feed_canister: identity(40),
        index: 0,
        user: identity(41),
        content: "remote".to_string(),
        photo_url: vec![],
        repost: resharers
            .iter()
            .map(|user| Repost { user: user.clone(), created_at: 1 })
            .collect(),
        like: vec![],
        comment: vec![],
        created_at,
    }
}

/// The collaborators of the actor, and a record of what they were asked.
struct World {
    now: u64,
    offered_shard: Option<Identity>,
    accepts: bool,
    followers: HashMap<Vec<u8>, Vec<Identity>>,
    served: HashMap<String, Post>,
    calls: Vec<String>,
    stored: Vec<Post>,
    notices: Vec<(Identity, Delivery, Vec<Identity>, String)>,
    fetched: Vec<String>,
    marks: Vec<(String, usize)>,
}

fn world() -> World {
    World {
        now: 1000,
        offered_shard: Some(shard()),
        accepts: true,
        followers: HashMap::new(),
        served: HashMap::new(),
        calls: Vec::new(),
        stored: Vec::new(),
        notices: Vec::new(),
        fetched: Vec::new(),
        marks: Vec::new(),
    }
}

fn answer(world: &mut World, call: RemoteCall) -> Reply {
    match call {
        RemoteCall::GetAvailableShard { directory: asked } => {
            assert_eq!(asked, directory());
            world.calls.push("get_available_shard".to_string());
            Reply::Shard(world.offered_shard.clone())
        }
        RemoteCall::StorePost { shard: _, post } => {
            world.calls.push("store_post".to_string());
            world.stored.push(post);
            Reply::Ack(world.accepts)
        }
        RemoteCall::UpdateReposts { shard: _, post_id, reposts } => {
            world.calls.push("update_reposts".to_string());
            world.marks.push((post_id, reposts.len()));
            Reply::Ack(world.accepts)
        }
        RemoteCall::UpdateComments { shard: _, post_id, comments } => {
            world.calls.push("update_comments".to_string());
            world.marks.push((post_id, comments.len()));
            Reply::Ack(world.accepts)
        }
        RemoteCall::UpdateLikes { shard: _, post_id, likes } => {
            world.calls.push("update_likes".to_string());
            world.marks.push((post_id, likes.len()));
            Reply::Ack(world.accepts)
        }
        RemoteCall::GetPost { shard: _, post_id } => {
            world.calls.push("get_post".to_string());
            world.fetched.push(post_id.clone());
            Reply::Post(world.served.get(&post_id).cloned())
        }
        RemoteCall::GetFollowers { graph: asked, user } => {
            assert_eq!(asked, graph());
            world.calls.push("get_followers".to_string());
            Reply::Followers(world.followers.get(&user.to_bytes()).cloned().unwrap_or_default())
        }
        RemoteCall::Notify { notifier, delivery, audience, post_id } => {
            world.calls.push("notify".to_string());
            world.notices.push((notifier, delivery, audience, post_id));
            Reply::Delivered
        }
    }
}

fn run(feed: &mut Feed, world: &mut World, first: Step) -> Result<Outcome, Failure> {
    let mut step = first;
    loop {
        match step {
            Step::Call(call, pending) => {
                let reply = answer(world, call);
                world.now += 1;
                step = feed.resume(pending, reply, world.now);
            }
            Step::Done(outcome) => return Ok(outcome),
            Step::Failed(failure) => return Err(failure),
        }
    }
}

fn post_id(outcome: Result<Outcome, Failure>) -> String {
    match outcome {
        Ok(Outcome::PostId(id)) => id,
        other => panic!("no post identifier: {:?}", other),
    }
}

fn flag(outcome: Result<Outcome, Failure>) -> bool {
    match outcome {
        Ok(Outcome::Flag(flag)) => flag,
        other => panic!("no flag: {:?}", other),
    }
}

fn completed(outcome: Result<Outcome, Failure>) {
    match outcome {
        Ok(Outcome::Completed) => {}
        other => panic!("not completed: {:?}", other),
    }
}

fn failure(outcome: Result<Outcome, Failure>) -> Failure {
    match outcome {
        Err(failure) => failure,
        other => panic!("no failure: {:?}", other),
    }
}

fn create_post(feed: &mut Feed, world: &mut World, content: &str) -> Result<Outcome, Failure> {
    let step = feed.create_post(owner(), content.to_string(), vec![], world.now);
    run(feed, world, step)
}

fn with_two_posts() -> (Feed, World) {
    let mut feed = new_feed();
    let mut world = world();
    post_id(create_post(&mut feed, &mut world, "hello"));
    post_id(create_post(&mut feed, &mut world, "world"));
    world.calls.clear();
    world.stored.clear();
    (feed, world)
}

#[test]
fn a_new_actor_holds_nothing() {
    let feed = new_feed();
    assert_eq!(feed.get_owner(), owner());
    assert!(feed.is_owner(&owner()));
    assert!(!feed.is_owner(&visitor()));
    assert!(feed.get_bucket().is_none());
    assert_eq!(feed.get_post_number(), 0);
    assert!(feed.get_all_post().is_empty());
    assert_eq!(feed.get_feed_number(), 0);
    assert!(feed.get_latest_feed(10).is_empty());
}

#[test]
fn posts_get_the_numbers_from_zero() {
    let mut feed = new_feed();
    let mut world = world();
    for k in 0..4u64 {
        let id = post_id(create_post(&mut feed, &mut world, "text"));
        assert_eq!(id, id_of(&shard(), &owner(), k));
        assert_eq!(feed.get_post_number(), k + 1);
        assert_eq!(feed.get_post(&id).unwrap().unwrap().index, k);
    }
}

#[test]
fn two_posts_and_a_repost() {
    let mut feed = new_feed();
    let mut world = world();
    let step = feed.check_available_bucket();
    assert!(flag(run(&mut feed, &mut world, step)));
    assert_eq!(feed.get_bucket(), Some(shard()));
    world.calls.clear();

    let first = post_id(create_post(&mut feed, &mut world, "hello"));
    assert_eq!(first, id_of(&shard(), &owner(), 0));
    let second = post_id(create_post(&mut feed, &mut world, "world"));
    assert_eq!(second, id_of(&shard(), &owner(), 1));
    assert_eq!(feed.get_post(&first).unwrap().unwrap().content, "hello");
    assert_eq!(feed.get_post(&second).unwrap().unwrap().content, "world");
    assert!(!world.calls.contains(&"get_available_shard".to_string()));

    let step = feed.create_repost(visitor(), first.clone(), world.now);
    assert!(flag(run(&mut feed, &mut world, step)));
    let reposts: Vec<Identity> =
        feed.get_post(&first).unwrap().unwrap().repost.iter().map(|r| r.user.clone()).collect();
    assert_eq!(reposts, vec![visitor()]);

    world.calls.clear();
    let step = feed.create_repost(visitor(), first.clone(), world.now);
    assert!(!flag(run(&mut feed, &mut world, step)));
    assert_eq!(feed.get_post(&first).unwrap().unwrap().repost.len(), 1);
    assert!(world.calls.is_empty());
    assert!(feed.get_post(&second).unwrap().unwrap().repost.is_empty());
}

#[test]
fn a_post_is_built_stored_and_announced() {
    let mut feed = new_feed();
    let mut world = world();
    world.followers.insert(owner().to_bytes(), vec![identity(50), identity(51)]);
    let step = feed.create_post(
        owner(),
        "hello".to_string(),
        vec!["https://example/a.png".to_string()],
        world.now,
    );
    let id = post_id(run(&mut feed, &mut world, step));
    assert_eq!(world.calls, vec!["get_available_shard", "store_post", "get_followers", "notify"]);
    assert_eq!(world.stored.len(), 1);
    let sent = &world.stored[0];
    assert_eq!(sent.post_id, id);
    assert_eq!(sent.feed_canister, actor());
    assert_eq!(sent.index, 0);
    assert_eq!(sent.user, owner());
    assert_eq!(sent.content, "hello");
    assert_eq!(sent.photo_url, vec!["https://example/a.png".to_string()]);
    assert!(sent.repost.is_empty() && sent.like.is_empty() && sent.comment.is_empty());
    // The time is read when the post is built, behind the directory's reply.
    assert_eq!(sent.created_at, 1001);
    assert_eq!(
        world.notices,
        vec![(post_notifier(), Delivery::Primary, vec![identity(50), identity(51)], id.clone())]
    );
    assert_eq!(feed.get_bucket(), Some(shard()));
    let kept = feed.get_all_post();
    assert_eq!(kept.len(), 1);
    assert_eq!(format!("{:?}", kept[0]), format!("{:?}", sent));
}

#[test]
fn a_post_without_followers_is_not_announced() {
    let mut feed = new_feed();
    let mut world = world();
    post_id(create_post(&mut feed, &mut world, "hello"));
    assert_eq!(world.calls, vec!["get_available_shard", "store_post", "get_followers"]);
    assert!(world.notices.is_empty());
    world.calls.clear();
    post_id(create_post(&mut feed, &mut world, "again"));
    assert_eq!(world.calls, vec!["store_post", "get_followers"]);
}

#[test]
fn only_the_owner_creates_posts() {
    let mut feed = new_feed();
    let mut world = world();
    let step = feed.create_post(visitor(), "hello".to_string(), vec![], 1);
    assert_eq!(failure(run(&mut feed, &mut world, step)), Failure::Unauthorized);
    assert!(world.calls.is_empty());
    assert_eq!(feed.get_post_number(), 0);
}

#[test]
fn only_the_owner_names_a_new_owner() {
    let mut feed = new_feed();
    assert_eq!(feed.update_owner(&visitor(), visitor()), Err(Failure::Unauthorized));
    assert_eq!(feed.get_owner(), owner());
    assert_eq!(feed.update_owner(&owner(), visitor()), Ok(()));
    assert_eq!(feed.get_owner(), visitor());
    assert_eq!(feed.update_owner(&owner(), owner()), Err(Failure::Unauthorized));
    let mut world = world();
    let step = feed.create_post(visitor(), "mine now".to_string(), vec![], 1);
    assert_eq!(post_id(run(&mut feed, &mut world, step)), id_of(&shard(), &visitor(), 0));
}

#[test]
fn no_shard_no_post() {
    let mut feed = new_feed();
    let mut world = world();
    world.offered_shard = None;
    assert_eq!(failure(create_post(&mut feed, &mut world, "hello")), Failure::NoShard);
    assert_eq!(feed.get_post_number(), 0);
    assert!(feed.get_bucket().is_none());
    let step = feed.check_available_bucket();
    assert_eq!(failure(run(&mut feed, &mut world, step)), Failure::NoShard);
}

#[test]
fn a_refused_post_stays_in_the_local_store() {
    let mut feed = new_feed();
    let mut world = world();
    world.accepts = false;
    assert_eq!(failure(create_post(&mut feed, &mut world, "hello")), Failure::NotAcknowledged);
    assert_eq!(world.calls, vec!["get_available_shard", "store_post"]);
    assert_eq!(feed.get_post_number(), 1);
    world.accepts = true;
    assert_eq!(
        post_id(create_post(&mut feed, &mut world, "again")),
        id_of(&shard(), &owner(), 1)
    );
}

#[test]
fn a_failed_call_fails_the_operation() {
    let mut feed = new_feed();
    let step = feed.create_post(owner(), "hello".to_string(), vec![], 1);
    let pending = match step {
        Step::Call(RemoteCall::GetAvailableShard { .. }, pending) => pending,
        other => panic!("{:?}", other),
    };
    match feed.resume(pending, Reply::Failed, 2) {
        Step::Failed(Failure::RemoteCall) => {}
        other => panic!("{:?}", other),
    }
    assert_eq!(feed.get_post_number(), 0);
}

#[test]
fn a_reply_of_the_wrong_kind_is_refused() {
    let mut feed = new_feed();
    let replies = [
        Reply::Ack(true),
        Reply::Post(None),
        Reply::Followers(vec![]),
        Reply::Delivered,
    ];
    for reply in replies {
        let step = feed.check_available_bucket();
        let pending = match step {
            Step::Call(_, pending) => pending,
            other => panic!("{:?}", other),
        };
        match feed.resume(pending, reply, 2) {
            Step::Failed(Failure::UnexpectedReply) => {}
            other => panic!("{:?}", other),
        }
    }
    match feed.resume(Pending::UpdatingMarks, Reply::Shard(Some(shard())), 2) {
        Step::Failed(Failure::UnexpectedReply) => {}
        other => panic!("{:?}", other),
    }
    match feed.resume(Pending::AnnouncingRepost, Reply::Ack(true), 2) {
        Step::Failed(Failure::UnexpectedReply) => {}
        other => panic!("{:?}", other),
    }
    assert!(feed.get_bucket().is_none());
}

#[test]
fn a_like_counts_once() {
    let (mut feed, mut world) = with_two_posts();
    let id = id_of(&shard(), &owner(), 1);
    let step = feed.create_like(visitor(), id.clone(), 77);
    assert!(flag(run(&mut feed, &mut world, step)));
    assert_eq!(world.calls, vec!["update_likes"]);
    assert_eq!(world.marks, vec![(id.clone(), 1)]);
    {
        let post = feed.get_post(&id).unwrap().unwrap();
        assert_eq!(post.like.len(), 1);
        assert_eq!(post.like[0].user, visitor());
        assert_eq!(post.like[0].created_at, 77);
    }
    world.calls.clear();
    let step = feed.create_like(visitor(), id.clone(), 78);
    assert!(!flag(run(&mut feed, &mut world, step)));
    assert!(world.calls.is_empty());
    assert_eq!(feed.get_post(&id).unwrap().unwrap().like.len(), 1);
    assert_eq!(feed.get_post(&id).unwrap().unwrap().like[0].created_at, 77);

    let step = feed.create_like(owner(), id.clone(), 79);
    assert!(flag(run(&mut feed, &mut world, step)));
    assert_eq!(world.marks.last(), Some(&(id.clone(), 2)));
    assert!(feed.get_post(&id_of(&shard(), &owner(), 0)).unwrap().unwrap().like.is_empty());
}

#[test]
fn a_repost_reaches_the_followers_but_for_the_author() {
    let (mut feed, mut world) = with_two_posts();
    let id = id_of(&shard(), &owner(), 0);
    world
        .followers
        .insert(visitor().to_bytes(), vec![identity(60), owner(), identity(61), owner()]);
    let step = feed.create_repost(visitor(), id.clone(), 5);
    assert!(flag(run(&mut feed, &mut world, step)));
    assert_eq!(world.calls, vec!["update_reposts", "get_followers", "notify"]);
    assert_eq!(
        world.notices,
        vec![(
            post_notifier(),
            Delivery::Secondary,
            vec![visitor(), identity(60), identity(61)],
            id.clone()
        )]
    );
}

#[test]
fn a_repost_without_followers_still_tells_the_notifier() {
    let (mut feed, mut world) = with_two_posts();
    let id = id_of(&shard(), &owner(), 0);
    let step = feed.create_repost(visitor(), id.clone(), 5);
    assert!(flag(run(&mut feed, &mut world, step)));
    assert_eq!(
        world.notices,
        vec![(post_notifier(), Delivery::Secondary, vec![visitor()], id.clone())]
    );
}

#[test]
fn comments_are_not_deduplicated() {
    let (mut feed, mut world) = with_two_posts();
    let id = id_of(&shard(), &owner(), 0);
    for k in 0..3u64 {
        let step = feed.create_comment(visitor(), id.clone(), format!("c{}", k), 10 + k);
        assert!(flag(run(&mut feed, &mut world, step)));
    }
    assert_eq!(world.calls, vec!["update_comments", "update_comments", "update_comments"]);
    assert_eq!(world.marks, vec![(id.clone(), 1), (id.clone(), 2), (id.clone(), 3)]);
    let post = feed.get_post(&id).unwrap().unwrap();
    let texts: Vec<&str> = post.comment.iter().map(|c| c.content.as_str()).collect();
    assert_eq!(texts, vec!["c0", "c1", "c2"]);
    assert_eq!(post.comment[2].user, visitor());
    assert_eq!(post.comment[2].created_at, 12);
}

#[test]
fn an_update_that_the_shard_refuses_fails_but_stays() {
    let (mut feed, mut world) = with_two_posts();
    let id = id_of(&shard(), &owner(), 0);
    world.accepts = false;
    let step = feed.create_like(visitor(), id.clone(), 5);
    assert_eq!(failure(run(&mut feed, &mut world, step)), Failure::NotAcknowledged);
    let step = feed.create_comment(visitor(), id.clone(), "c".to_string(), 5);
    assert_eq!(failure(run(&mut feed, &mut world, step)), Failure::NotAcknowledged);
    let step = feed.create_repost(visitor(), id.clone(), 5);
    assert_eq!(failure(run(&mut feed, &mut world, step)), Failure::NotAcknowledged);
    let post = feed.get_post(&id).unwrap().unwrap();
    assert_eq!((post.like.len(), post.comment.len(), post.repost.len()), (1, 1, 1));
}

#[test]
fn malformed_and_unknown_posts_are_rejected() {
    let (mut feed, mut world) = with_two_posts();
    let unknown = id_of(&shard(), &owner(), 2);
    let step = feed.create_like(visitor(), unknown.clone(), 5);
    assert_eq!(failure(run(&mut feed, &mut world, step)), Failure::UnknownPost);
    let step = feed.create_repost(visitor(), unknown.clone(), 5);
    assert_eq!(failure(run(&mut feed, &mut world, step)), Failure::UnknownPost);
    let step = feed.create_comment(visitor(), unknown.clone(), "c".to_string(), 5);
    assert_eq!(failure(run(&mut feed, &mut world, step)), Failure::UnknownPost);
    assert!(feed.get_post(&unknown).unwrap().is_none());

    let step = feed.create_like(visitor(), "nonsense".to_string(), 5);
    assert_eq!(
        failure(run(&mut feed, &mut world, step)),
        Failure::MalformedId(ParseError::SegmentCount)
    );
    let step = feed.create_repost(visitor(), "a#b#0".to_string(), 5);
    assert_eq!(
        failure(run(&mut feed, &mut world, step)),
        Failure::MalformedId(ParseError::InvalidIdentity)
    );
    let bad_number = format!("{}#{}#x", shard().to_text(), owner().to_text());
    let step = feed.create_comment(visitor(), bad_number.clone(), "c".to_string(), 5);
    assert_eq!(
        failure(run(&mut feed, &mut world, step)),
        Failure::MalformedId(ParseError::InvalidSequence)
    );
    assert_eq!(feed.get_post(&bad_number).unwrap_err(), ParseError::InvalidSequence);
    assert!(world.calls.is_empty());
}

#[test]
fn a_notice_is_taken_in_once() {
    let mut feed = new_feed();
    let mut world = world();
    let id = id_of(&shard(), &identity(41), 0);
    world.served.insert(id.clone(), remote_post(&id, 5, &[]));
    let step = feed.receive_feed(id.clone());
    assert!(flag(run(&mut feed, &mut world, step)));
    assert_eq!(world.fetched, vec![id.clone()]);
    assert_eq!(feed.get_feed_number(), 1);
    assert_eq!(feed.get_feed(&id).unwrap().created_at, 5);

    world.served.insert(id.clone(), remote_post(&id, 99, &[]));
    world.calls.clear();
    let step = feed.receive_feed(id.clone());
    assert!(!flag(run(&mut feed, &mut world, step)));
    assert!(world.calls.is_empty());
    assert_eq!(feed.get_feed_number(), 1);
    assert_eq!(feed.get_feed(&id).unwrap().created_at, 5);
    let step = feed.receive_like(id.clone());
    assert!(!flag(run(&mut feed, &mut world, step)));
    let step = feed.receive_comment(id.clone());
    assert!(!flag(run(&mut feed, &mut world, step)));
    assert!(world.calls.is_empty());
}

#[test]
fn a_list_of_notices_fetches_each_post_once() {
    let mut feed = new_feed();
    let mut world = world();
    let a = id_of(&shard(), &identity(41), 0);
    let b = id_of(&shard(), &identity(41), 1);
    world.served.insert(a.clone(), remote_post(&a, 5, &[]));
    world.served.insert(b.clone(), remote_post(&b, 6, &[]));
    let step = feed.batch_receive_feed(vec![a.clone(), a.clone(), b.clone()]);
    completed(run(&mut feed, &mut world, step));
    assert_eq!(feed.get_feed_number(), 2);
    assert_eq!(world.fetched, vec![a.clone(), b.clone()]);
    assert!(feed.get_feed(&a).is_some());
    assert!(feed.get_feed(&b).is_some());
    let step = feed.batch_receive_feed(vec![b.clone(), a.clone()]);
    completed(run(&mut feed, &mut world, step));
    assert_eq!(world.fetched.len(), 2);
    let step = feed.batch_receive_feed(vec![]);
    completed(run(&mut feed, &mut world, step));
}

#[test]
fn a_list_keeps_what_it_took_in_before_it_failed() {
    let mut feed = new_feed();
    let mut world = world();
    let a = id_of(&shard(), &identity(41), 0);
    let missing = id_of(&shard(), &identity(41), 7);
    let c = id_of(&shard(), &identity(41), 2);
    world.served.insert(a.clone(), remote_post(&a, 5, &[]));
    world.served.insert(c.clone(), remote_post(&c, 6, &[]));
    let step = feed.batch_receive_like(vec![a.clone(), missing.clone(), c.clone()]);
    assert_eq!(failure(run(&mut feed, &mut world, step)), Failure::MissingPost);
    assert_eq!(feed.get_feed_number(), 1);
    assert!(feed.get_feed(&a).is_some());
    assert!(feed.get_feed(&c).is_none());

    let step = feed.batch_receive_comment(vec![a.clone(), "bad".to_string(), c.clone()]);
    assert_eq!(
        failure(run(&mut feed, &mut world, step)),
        Failure::MalformedId(ParseError::SegmentCount)
    );
    assert_eq!(feed.get_feed_number(), 1);
    let step = feed.receive_feed(missing.clone());
    assert_eq!(failure(run(&mut feed, &mut world, step)), Failure::MissingPost);
}

#[test]
fn a_comment_on_a_reshared_post_goes_on_to_the_owners_followers() {
    let mut feed = new_feed();
    let mut world = world();
    let id = id_of(&shard(), &identity(41), 0);
    world.served.insert(id.clone(), remote_post(&id, 5, &[identity(70), owner()]));
    world.followers.insert(owner().to_bytes(), vec![identity(50), identity(51)]);
    let step = feed.receive_comment(id.clone());
    assert!(flag(run(&mut feed, &mut world, step)));
    assert_eq!(world.calls, vec!["get_post", "get_followers", "notify"]);
    assert_eq!(
        world.notices,
        vec![(
            comment_notifier(),
            Delivery::Secondary,
            vec![identity(50), identity(51)],
            id.clone()
        )]
    );
    let step = feed.receive_comment(id.clone());
    assert!(!flag(run(&mut feed, &mut world, step)));
    assert_eq!(world.notices.len(), 1);
}

#[test]
fn a_comment_on_a_post_of_others_goes_nowhere() {
    let mut feed = new_feed();
    let mut world = world();
    let id = id_of(&shard(), &identity(41), 0);
    world.served.insert(id.clone(), remote_post(&id, 5, &[identity(70)]));
    world.followers.insert(owner().to_bytes(), vec![identity(50)]);
    let step = feed.receive_comment(id.clone());
    assert!(flag(run(&mut feed, &mut world, step)));
    assert_eq!(world.calls, vec!["get_post"]);
    assert!(world.notices.is_empty());
    assert_eq!(feed.get_feed_number(), 1);
}

#[test]
fn a_like_on_a_reshared_post_goes_to_the_like_notifier() {
    let mut feed = new_feed();
    let mut world = world();
    let id = id_of(&shard(), &identity(41), 0);
    world.served.insert(id.clone(), remote_post(&id, 5, &[owner()]));
    let step = feed.receive_like(id.clone());
    assert!(flag(run(&mut feed, &mut world, step)));
    assert_eq!(
        world.notices,
        vec![(like_notifier(), Delivery::Secondary, vec![], id.clone())]
    );
}

#[test]
fn a_notice_of_a_reshared_post_itself_goes_nowhere() {
    let mut feed = new_feed();
    let mut world = world();
    let id = id_of(&shard(), &identity(41), 0);
    world.served.insert(id.clone(), remote_post(&id, 5, &[owner()]));
    let step = feed.receive_feed(id.clone());
    assert!(flag(run(&mut feed, &mut world, step)));
    assert_eq!(world.calls, vec!["get_post"]);
}

#[test]
fn lists_of_comment_notices_go_on_for_each_reshared_post() {
    let mut feed = new_feed();
    let mut world = world();
    let a = id_of(&shard(), &identity(41), 0);
    let b = id_of(&shard(), &identity(41), 1);
    let c = id_of(&shard(), &identity(41), 2);
    world.served.insert(a.clone(), remote_post(&a, 5, &[owner()]));
    world.served.insert(b.clone(), remote_post(&b, 6, &[]));
    world.served.insert(c.clone(), remote_post(&c, 7, &[owner()]));
    world.followers.insert(owner().to_bytes(), vec![identity(50)]);
    let step = feed.batch_receive_comment(vec![a.clone(), b.clone(), a.clone(), c.clone()]);
    completed(run(&mut feed, &mut world, step));
    assert_eq!(
        world.calls,
        vec![
            "get_post",
            "get_followers",
            "notify",
            "get_post",
            "get_post",
            "get_followers",
            "notify"
        ]
    );
    let told: Vec<&String> = world.notices.iter().map(|n| &n.3).collect();
    assert_eq!(told, vec![&a, &c]);
    assert!(world.notices.iter().all(|n| n.0 == comment_notifier()));
    assert_eq!(feed.get_feed_number(), 3);
}

#[test]
fn a_post_that_was_cached_meanwhile_is_left_as_it_was() {
    let mut feed = new_feed();
    let mut world = world();
    let id = id_of(&shard(), &identity(41), 0);
    let slow = feed.receive_comment(id.clone());
    world.served.insert(id.clone(), remote_post(&id, 5, &[]));
    let step = feed.receive_feed(id.clone());
    assert!(flag(run(&mut feed, &mut world, step)));
    world.served.insert(id.clone(), remote_post(&id, 9, &[owner()]));
    world.calls.clear();
    assert!(!flag(run(&mut feed, &mut world, slow)));
    assert_eq!(world.calls, vec!["get_post"]);
    assert_eq!(feed.get_feed(&id).unwrap().created_at, 5);
}

#[test]
fn the_latest_feed_comes_most_recent_first() {
    let mut feed = new_feed();
    let mut world = world();
    let mut ids = Vec::new();
    for (k, stamp) in [30u64, 10, 40, 20].iter().enumerate() {
        let id = id_of(&shard(), &identity(41), k as u64);
        world.served.insert(id.clone(), remote_post(&id, *stamp, &[]));
        ids.push(id);
    }
    let step = feed.batch_receive_feed(ids.clone());
    completed(run(&mut feed, &mut world, step));
    let stamps = |posts: Vec<Post>| posts.iter().map(|p| p.created_at).collect::<Vec<u64>>();
    assert_eq!(stamps(feed.get_latest_feed(2)), vec![40, 30]);
    assert_eq!(stamps(feed.get_latest_feed(4)), vec![40, 30, 20, 10]);
    assert_eq!(stamps(feed.get_latest_feed(9)), vec![40, 30, 20, 10]);
    assert_eq!(stamps(feed.get_latest_feed(0)), Vec::<u64>::new());
    assert_eq!(feed.get_latest_feed(1)[0].post_id, ids[2]);
}

#[test]
fn an_actor_is_restored_from_what_it_held() {
    let (mut feed, mut world) = with_two_posts();
    let remote = id_of(&shard(), &identity(41), 0);
    world.served.insert(remote.clone(), remote_post(&remote, 5, &[]));
    let step = feed.receive_feed(remote.clone());
    assert!(flag(run(&mut feed, &mut world, step)));
    let step = feed.create_like(visitor(), id_of(&shard(), &owner(), 0), 7);
    assert!(flag(run(&mut feed, &mut world, step)));

    let arg = FeedInitArg {
        root_bucket: directory(),
        user_actor: graph(),
        post_fetch_actor: post_notifier(),
        comment_fetch_actor: comment_notifier(),
        like_fetch_actor: like_notifier(),
        owner: feed.get_owner(),
    };
    let cached = vec![(remote.clone(), feed.get_feed(&remote).unwrap().clone())];
    let mut restored =
        Feed::restore(actor(), arg, feed.get_bucket(), feed.get_all_post(), cached).unwrap();
    assert_eq!(restored.get_post_number(), 2);
    assert_eq!(restored.get_feed_number(), 1);
    assert_eq!(restored.get_bucket(), Some(shard()));
    assert_eq!(
        format!("{:?}", restored.get_all_post()),
        format!("{:?}", feed.get_all_post())
    );
    world.calls.clear();
    let step = restored.create_like(visitor(), id_of(&shard(), &owner(), 0), 8);
    assert!(!flag(run(&mut restored, &mut world, step)));
    let step = restored.receive_feed(remote.clone());
    assert!(!flag(run(&mut restored, &mut world, step)));
    assert!(world.calls.is_empty());
    assert_eq!(
        post_id(create_post(&mut restored, &mut world, "third")),
        id_of(&shard(), &owner(), 2)
    );
}

#[test]
fn an_actor_is_not_restored_from_unsound_posts() {
    let (feed, _) = with_two_posts();
    let mut posts = feed.get_all_post();
    posts.swap(0, 1);
    let arg = FeedInitArg {
        root_bucket: directory(),
        user_actor: graph(),
        post_fetch_actor: post_notifier(),
        comment_fetch_actor: comment_notifier(),
        like_fetch_actor: like_notifier(),
        owner: owner(),
    };
    assert!(Feed::restore(actor(), arg, None, posts, vec![]).is_none());
}
