//! The materialized cache: posts this actor was told about, by identifier.
//!
//! An entry is made when an identifier is first seen and is never changed
//! afterwards, so a cached post may lag behind its origin.

use crate::post::{views, Post, PostView};
use crate::text::{
    lemma_text_before_irreflexive, lemma_text_before_total, lemma_text_before_transitive,
    rank_texts, text_before, to_chars, Rank,
};
use vstd::prelude::*;
use vstd::set_lib::lemma_subset_equality;

verus! {

/// A cached post and the characters of the identifier it is cached under.
struct FeedEntry {
    key: Vec<char>,
    post: Post,
}

/// Posts by global identifier, held in the order of the identifiers.
pub struct FeedCache {
    entries: Vec<FeedEntry>,
}

/// Whether the keys come in the order of texts, each before the next.
spec fn ascending(entries: Seq<FeedEntry>) -> bool {
    forall|j: int, k: int|
        0 <= j < k < entries.len() ==> text_before(
            (#[trigger] entries[j]).key@,
            (#[trigger] entries[k]).key@,
        )
}

/// Whether some entry has the key `id`.
spec fn holds(entries: Seq<FeedEntry>, id: Seq<char>) -> bool {
    exists|k: int| 0 <= k < entries.len() && (#[trigger] entries[k]).key@ == id
}

/// The place of an entry with the key `id`.
spec fn slot(entries: Seq<FeedEntry>, id: Seq<char>) -> int {
    choose|k: int| 0 <= k < entries.len() && (#[trigger] entries[k]).key@ == id
}

/// The keys of the entries, in order.
spec fn keys(entries: Seq<FeedEntry>) -> Seq<Seq<char>> {
    Seq::new(entries.len(), |k: int| entries[k].key@)
}

/// The entries as a map from key to post.
spec fn as_map(entries: Seq<FeedEntry>) -> Map<Seq<char>, PostView> {
    Map::new(|id: Seq<char>| holds(entries, id), |id: Seq<char>| entries[slot(entries, id)].post@)
}

/// In ascending entries a key occurs once, so each entry is what the map
/// holds under its key.
proof fn lemma_slot(entries: Seq<FeedEntry>, k: int)
    requires
        ascending(entries),
        0 <= k < entries.len(),
    ensures
        holds(entries, entries[k].key@),
        slot(entries, entries[k].key@) == k,
        as_map(entries)[entries[k].key@] == entries[k].post@,
{
    let id = entries[k].key@;
    let found = slot(entries, id);
    lemma_text_before_irreflexive(id);
    if found < k {
        assert(text_before(entries[found].key@, entries[k].key@));
    } else if k < found {
        assert(text_before(entries[k].key@, entries[found].key@));
    }
}

/// The map of ascending entries has as many keys as there are entries.
proof fn lemma_size(entries: Seq<FeedEntry>)
    requires
        ascending(entries),
    ensures
        as_map(entries).dom().finite(),
        as_map(entries).dom().len() == entries.len(),
{
    let ids = keys(entries);
    assert forall|j: int, k: int| 0 <= j < ids.len() && 0 <= k < ids.len() && j != k implies ids[j]
        != ids[k] by {
        lemma_text_before_irreflexive(ids[j]);
        if j < k {
            assert(text_before(entries[j].key@, entries[k].key@));
        } else {
            assert(text_before(entries[k].key@, entries[j].key@));
        }
    }
    ids.unique_seq_to_set();
    assert(as_map(entries).dom() =~= ids.to_set()) by {
        assert forall|id: Seq<char>| as_map(entries).dom().contains(id) implies ids.to_set().contains(
            id,
        ) by {
            let k = slot(entries, id);
            assert(ids[k] == id);
        }
        assert forall|id: Seq<char>| ids.to_set().contains(id) implies as_map(
            entries,
        ).dom().contains(id) by {
            let k = choose|k: int| 0 <= k < ids.len() && ids[k] == id;
            assert(entries[k].key@ == id);
        }
    }
}

/// Whether the post cached under `a` ranks before the one under `b`: it was
/// created later, or at the same time under the later identifier.
pub open spec fn ranks_before(
    cache: Map<Seq<char>, PostView>,
    a: Seq<char>,
    b: Seq<char>,
) -> bool {
    cache[a].created_at > cache[b].created_at || (cache[a].created_at == cache[b].created_at
        && text_before(b, a))
}

/// Whether `ids` names the `n` highest-ranking posts of `cache`, or all of
/// them where it holds no more than `n`, from the highest rank down.
pub open spec fn is_latest(cache: Map<Seq<char>, PostView>, n: nat, ids: Seq<Seq<char>>) -> bool {
    &&& ids.len() == if n <= cache.len() { n } else { cache.len() }
    &&& forall|k: int| 0 <= k < ids.len() ==> cache.contains_key(#[trigger] ids[k])
    &&& forall|j: int, k: int|
        0 <= j < k < ids.len() ==> ranks_before(cache, #[trigger] ids[j], #[trigger] ids[k])
    &&& forall|id: Seq<char>, k: int|
        cache.contains_key(id) && !ids.contains(id) && 0 <= k < ids.len() ==> #[trigger] ranks_before(
            cache,
            ids[k],
            id,
        )
}

/// Whether `posts` are the `n` most recently created posts of `cache`, or
/// all of them where it holds no more than `n`, the most recent first.
pub open spec fn latest_posts(cache: Map<Seq<char>, PostView>, n: nat, posts: Seq<PostView>) -> bool {
    exists|ids: Seq<Seq<char>>| #[trigger]
        is_latest(cache, n, ids) && posts == Seq::new(ids.len(), |k: int| cache[ids[k]])
}

/// The ranks of a cache are a strict order of its identifiers in which any
/// two of them can be compared.
pub proof fn lemma_ranks_are_ordered(
    cache: Map<Seq<char>, PostView>,
    a: Seq<char>,
    b: Seq<char>,
    c: Seq<char>,
)
    ensures
        !ranks_before(cache, a, a),
        a != b ==> ranks_before(cache, a, b) || ranks_before(cache, b, a),
        ranks_before(cache, a, b) ==> !ranks_before(cache, b, a),
        ranks_before(cache, a, b) && ranks_before(cache, b, c) ==> ranks_before(cache, a, c),
{
    lemma_text_before_irreflexive(a);
    lemma_text_before_total(a, b);
    if text_before(a, b) && text_before(b, a) {
        lemma_text_before_transitive(a, b, a);
    }
    if text_before(c, b) && text_before(b, a) {
        lemma_text_before_transitive(c, b, a);
    }
}

/// Two selections of the latest posts that agree up to a place do not
/// differ there by a higher rank in the first.
proof fn lemma_latest_not_before(
    cache: Map<Seq<char>, PostView>,
    n: nat,
    ids: Seq<Seq<char>>,
    other: Seq<Seq<char>>,
    at: int,
)
    requires
        is_latest(cache, n, ids),
        is_latest(cache, n, other),
        0 <= at < ids.len(),
        forall|k: int| 0 <= k < at ==> ids[k] == other[k],
    ensures
        !ranks_before(cache, ids[at], other[at]),
{
    let id = ids[at];
    lemma_ranks_are_ordered(cache, id, other[at], id);
    if ranks_before(cache, id, other[at]) {
        if other.contains(id) {
            let t = choose|t: int| 0 <= t < other.len() && other[t] == id;
            if t < at {
                assert(ranks_before(cache, ids[t], ids[at]));
            } else if t > at {
                assert(ranks_before(cache, other[at], other[t]));
            }
        } else {
            assert(ranks_before(cache, other[at], id));
        }
    }
}

/// Two selections of the latest posts name the same identifiers.
proof fn lemma_latest_agree(
    cache: Map<Seq<char>, PostView>,
    n: nat,
    ids: Seq<Seq<char>>,
    other: Seq<Seq<char>>,
    upto: int,
)
    requires
        is_latest(cache, n, ids),
        is_latest(cache, n, other),
        0 <= upto <= ids.len(),
    ensures
        forall|k: int| 0 <= k < upto ==> ids[k] == other[k],
    decreases upto,
{
    if upto > 0 {
        let at = upto - 1;
        lemma_latest_agree(cache, n, ids, other, at);
        lemma_latest_not_before(cache, n, ids, other, at);
        lemma_latest_not_before(cache, n, other, ids, at);
        lemma_ranks_are_ordered(cache, ids[at], other[at], ids[at]);
    }
}

/// A cache has one selection of its latest posts, and no other.
pub proof fn lemma_latest_is_unique(
    cache: Map<Seq<char>, PostView>,
    n: nat,
    posts: Seq<PostView>,
    other: Seq<PostView>,
)
    requires
        latest_posts(cache, n, posts),
        latest_posts(cache, n, other),
    ensures
        posts == other,
{
    let a = choose|ids: Seq<Seq<char>>| #[trigger]
        is_latest(cache, n, ids) && posts == Seq::new(ids.len(), |k: int| cache[ids[k]]);
    let b = choose|ids: Seq<Seq<char>>| #[trigger]
        is_latest(cache, n, ids) && other == Seq::new(ids.len(), |k: int| cache[ids[k]]);
    lemma_latest_agree(cache, n, a, b, a.len() as int);
    assert(a =~= b);
}

/// The latest posts come in the order of their creation, the most recent
/// first, and there are `n` of them or as many as the cache holds.
pub proof fn lemma_latest_is_descending(
    cache: Map<Seq<char>, PostView>,
    n: nat,
    posts: Seq<PostView>,
)
    requires
        latest_posts(cache, n, posts),
    ensures
        posts.len() == if n <= cache.len() { n } else { cache.len() },
        forall|j: int, k: int|
            0 <= j < k < posts.len() ==> (#[trigger] posts[j]).created_at >= (
            #[trigger] posts[k]).created_at,
{
    let ids = choose|ids: Seq<Seq<char>>| #[trigger]
        is_latest(cache, n, ids) && posts == Seq::new(ids.len(), |k: int| cache[ids[k]]);
    assert forall|j: int, k: int| 0 <= j < k < posts.len() implies (
    #[trigger] posts[j]).created_at >= (#[trigger] posts[k]).created_at by {
        assert(ranks_before(cache, ids[j], ids[k]));
    }
}

/// Where the cache holds no more than `n` posts, the latest `n` are all of
/// them: each cached post is among them.
pub proof fn lemma_latest_of_few_is_all(
    cache: Map<Seq<char>, PostView>,
    n: nat,
    posts: Seq<PostView>,
    id: Seq<char>,
)
    requires
        cache.dom().finite(),
        cache.len() <= n,
        latest_posts(cache, n, posts),
        cache.contains_key(id),
    ensures
        posts.len() == cache.len(),
        posts.contains(cache[id]),
{
    let ids = choose|ids: Seq<Seq<char>>| #[trigger]
        is_latest(cache, n, ids) && posts == Seq::new(ids.len(), |k: int| cache[ids[k]]);
    assert forall|j: int, k: int| 0 <= j < ids.len() && 0 <= k < ids.len() && j != k implies ids[j]
        != ids[k] by {
        lemma_ranks_are_ordered(cache, ids[j], ids[k], ids[j]);
        if j < k {
            assert(ranks_before(cache, ids[j], ids[k]));
        } else {
            assert(ranks_before(cache, ids[k], ids[j]));
        }
    }
    ids.unique_seq_to_set();
    assert(ids.to_set().subset_of(cache.dom())) by {
        assert forall|x: Seq<char>| ids.to_set().contains(x) implies cache.dom().contains(x) by {
            let k = choose|k: int| 0 <= k < ids.len() && ids[k] == x;
            assert(cache.contains_key(ids[k]));
        }
    }
    lemma_subset_equality(ids.to_set(), cache.dom());
    assert(ids.to_set().contains(id));
    let k = choose|k: int| 0 <= k < ids.len() && ids[k] == id;
    assert(posts[k] == cache[id]);
}

/// Whether the entry at place `j` ranks before the one at place `k`. Among
/// ascending entries the later place has the later identifier.
spec fn outranks(entries: Seq<FeedEntry>, j: int, k: int) -> bool {
    entries[j].post.created_at > entries[k].post.created_at || (entries[j].post.created_at
        == entries[k].post.created_at && j > k)
}

/// Whether `order` holds the places of the `wanted` highest-ranking of the
/// first `upto` entries, or of all of them where they are fewer, from the
/// highest rank down.
spec fn leads(entries: Seq<FeedEntry>, order: Seq<usize>, upto: int, wanted: int) -> bool {
    &&& order.len() == if wanted <= upto { wanted } else { upto }
    &&& forall|p: int| 0 <= p < order.len() ==> (#[trigger] order[p]) < upto
    &&& forall|p: int, q: int|
        0 <= p < q < order.len() ==> outranks(
            entries,
            #[trigger] order[p] as int,
            #[trigger] order[q] as int,
        )
    &&& forall|j: int, p: int|
        0 <= j < upto && !order.contains(j as usize) && 0 <= p < order.len() ==> #[trigger] outranks(
            entries,
            order[p] as int,
            j,
        )
    &&& order.len() == upto ==> forall|j: int| 0 <= j < upto ==> #[trigger] order.contains(j as usize)
}

/// The leading places among all entries name the latest posts of the map.
proof fn lemma_leaders_are_latest(
    entries: Seq<FeedEntry>,
    order: Seq<usize>,
    n: nat,
    ids: Seq<Seq<char>>,
)
    requires
        ascending(entries),
        entries.len() <= usize::MAX,
        leads(entries, order, entries.len() as int, n as int),
        ids.len() == order.len(),
        forall|k: int| 0 <= k < ids.len() ==> #[trigger] ids[k] == entries[order[k] as int].key@,
    ensures
        is_latest(as_map(entries), n, ids),
        forall|k: int|
            0 <= k < ids.len() ==> as_map(entries)[#[trigger] ids[k]]
                == entries[order[k] as int].post@,
{
    let cache = as_map(entries);
    lemma_size(entries);
    assert forall|k: int| 0 <= k < ids.len() implies cache.contains_key(#[trigger] ids[k])
        && cache[ids[k]] == entries[order[k] as int].post@ by {
        lemma_slot(entries, order[k] as int);
    }
    assert forall|j: int, k: int| 0 <= j < k < ids.len() implies ranks_before(
        cache,
        #[trigger] ids[j],
        #[trigger] ids[k],
    ) by {
        assert(outranks(entries, order[j] as int, order[k] as int));
        if order[j] > order[k] {
            assert(text_before(entries[order[k] as int].key@, entries[order[j] as int].key@));
        }
    }
    assert forall|id: Seq<char>, k: int|
        cache.contains_key(id) && !ids.contains(id) && 0 <= k < ids.len() implies #[trigger] ranks_before(
        cache,
        ids[k],
        id,
    ) by {
        let t = slot(entries, id);
        lemma_slot(entries, t);
        if order.contains(t as usize) {
            let q = choose|q: int| 0 <= q < order.len() && order[q] == t as usize;
            assert(ids[q] == id);
        }
        assert(outranks(entries, order[k] as int, t));
        if order[k] > t {
            assert(text_before(entries[t].key@, entries[order[k] as int].key@));
        }
    }
}

/// The cache that comes of caching `entries` one after the other: of two
/// entries under one identifier the first stays.
pub open spec fn cache_of(entries: Seq<(Seq<char>, PostView)>) -> Map<Seq<char>, PostView>
    decreases entries.len(),
{
    if entries.len() == 0 {
        Map::empty()
    } else {
        let before = cache_of(entries.drop_last());
        if before.contains_key(entries.last().0) {
            before
        } else {
            before.insert(entries.last().0, entries.last().1)
        }
    }
}

impl View for FeedCache {
    type V = Map<Seq<char>, PostView>;

    closed spec fn view(&self) -> Map<Seq<char>, PostView> {
        as_map(self.entries@)
    }
}

impl FeedCache {
    #[verifier::type_invariant]
    spec fn in_order(self) -> bool {
        ascending(self.entries@)
    }

    /// A cache without entries.
    pub fn new() -> (cache: FeedCache)
        ensures
            cache@ == Map::<Seq<char>, PostView>::empty(),
    {
        let cache = FeedCache { entries: Vec::new() };
        assert(cache@ =~= Map::<Seq<char>, PostView>::empty());
        cache
    }

    /// The cache that holds `entries`, cached one after the other.
    pub fn restore(entries: Vec<(String, Post)>) -> (cache: FeedCache)
        ensures
            cache@ == cache_of(Seq::new(entries@.len(), |k: int| (entries@[k].0@, entries@[k].1@))),
    {
        let ghost all = Seq::new(entries@.len(), |k: int| (entries@[k].0@, entries@[k].1@));
        let mut cache = FeedCache::new();
        let mut entries = entries;
        let mut rest: Vec<(String, Post)> = Vec::new();
        // The entries are taken from the end, so turn them round first.
        while entries.len() > 0
            invariant
                entries@.len() + rest@.len() == all.len(),
                forall|k: int|
                    0 <= k < entries@.len() ==> (#[trigger] entries@[k]).0@ == all[k].0
                        && entries@[k].1@ == all[k].1,
                forall|k: int|
                    0 <= k < rest@.len() ==> (#[trigger] rest@[k]).0@ == all[all.len() - 1 - k].0
                        && rest@[k].1@ == all[all.len() - 1 - k].1,
            decreases entries@.len(),
        {
            let last = entries.pop().unwrap();
            rest.push(last);
        }
        assert(all.take(0) =~= Seq::<(Seq<char>, PostView)>::empty());
        while rest.len() > 0
            invariant
                rest@.len() <= all.len(),
                forall|k: int|
                    0 <= k < rest@.len() ==> (#[trigger] rest@[k]).0@ == all[all.len() - 1 - k].0
                        && rest@[k].1@ == all[all.len() - 1 - k].1,
                cache@ == cache_of(all.take(all.len() - rest@.len())),
            decreases rest@.len(),
        {
            let ghost done = all.len() - rest@.len();
            let (post_id, post) = rest.pop().unwrap();
            proof {
                assert(all.take(done + 1).drop_last() =~= all.take(done));
                assert(all.take(done + 1).last() == all[done]);
            }
            cache.insert(post_id.as_str(), post);
        }
        assert(all.take(all.len() as int) =~= all);
        cache
    }

    /// The number of cached posts.
    pub fn len(&self) -> (count: u64)
        ensures
            self@.dom().finite(),
            count == self@.len(),
    {
        proof {
            use_type_invariant(self);
            lemma_size(self.entries@);
        }
        self.entries.len() as u64
    }

    /// The index of the first entry whose key does not come before `key`,
    /// and whether that entry's key is `key`. Found by bisection.
    fn locate(&self, key: &Vec<char>) -> (place: (usize, bool))
        ensures
            place.0 <= self.entries@.len(),
            forall|j: int| 0 <= j < place.0 ==> text_before((#[trigger] self.entries@[j]).key@, key@),
            place.1 ==> place.0 < self.entries@.len() && self.entries@[place.0 as int].key@ == key@,
            !place.1 ==> (forall|j: int|
                place.0 <= j < self.entries@.len() ==> text_before(
                    key@,
                    (#[trigger] self.entries@[j]).key@,
                )),
            place.1 == holds(self.entries@, key@),
    {
        proof {
            use_type_invariant(self);
        }
        let ghost entries = self.entries@;
        let mut low: usize = 0;
        let mut high: usize = self.entries.len();
        while low < high
            invariant
                entries == self.entries@,
                ascending(entries),
                low <= high <= entries.len(),
                forall|j: int| 0 <= j < low ==> text_before((#[trigger] entries[j]).key@, key@),
                forall|j: int|
                    high <= j < entries.len() ==> text_before(key@, (#[trigger] entries[j]).key@),
            decreases high - low,
        {
            let middle = low + (high - low) / 2;
            let rank = rank_texts(&self.entries[middle].key, key);
            match rank {
                Rank::Before => {
                    proof {
                        assert forall|j: int| 0 <= j < middle + 1 implies text_before(
                            (#[trigger] entries[j]).key@,
                            key@,
                        ) by {
                            if j < middle {
                                assert(text_before(entries[j].key@, entries[middle as int].key@));
                                lemma_text_before_transitive(
                                    entries[j].key@,
                                    entries[middle as int].key@,
                                    key@,
                                );
                            }
                        }
                    }
                    low = middle + 1;
                },
                Rank::Same => {
                    proof {
                        assert forall|j: int| 0 <= j < middle implies text_before(
                            (#[trigger] entries[j]).key@,
                            key@,
                        ) by {
                            assert(text_before(entries[j].key@, entries[middle as int].key@));
                        }
                    }
                    return (middle, true);
                },
                Rank::After => {
                    proof {
                        assert forall|j: int| middle <= j < entries.len() implies text_before(
                            key@,
                            (#[trigger] entries[j]).key@,
                        ) by {
                            if j > middle {
                                assert(text_before(entries[middle as int].key@, entries[j].key@));
                                lemma_text_before_transitive(
                                    key@,
                                    entries[middle as int].key@,
                                    entries[j].key@,
                                );
                            }
                        }
                    }
                    high = middle;
                },
            }
        }
        proof {
            if holds(entries, key@) {
                let k = slot(entries, key@);
                lemma_text_before_irreflexive(key@);
                if k < low {
                    assert(text_before(entries[k].key@, key@));
                } else {
                    assert(text_before(key@, entries[k].key@));
                }
            }
        }
        (low, false)
    }

    /// Whether a post is cached under `post_id`.
    pub fn contains(&self, post_id: &str) -> (found: bool)
        ensures
            found == self@.contains_key(post_id@),
    {
        let key = to_chars(post_id);
        self.locate(&key).1
    }

    /// The post cached under `post_id`.
    pub fn get(&self, post_id: &str) -> (entry: Option<&Post>)
        ensures
            entry is Some <==> self@.contains_key(post_id@),
            entry matches Some(post) ==> post@ == self@[post_id@],
    {
        proof {
            use_type_invariant(self);
        }
        let key = to_chars(post_id);
        let (at, found) = self.locate(&key);
        if found {
            proof {
                lemma_slot(self.entries@, at as int);
            }
            Some(&self.entries[at].post)
        } else {
            None
        }
    }

    /// Caches `post` under `post_id`, unless a post is cached there already.
    /// Says whether the cache has changed.
    pub fn insert(&mut self, post_id: &str, post: Post) -> (added: bool)
        ensures
            added == !old(self)@.contains_key(post_id@),
            added ==> final(self)@ == old(self)@.insert(post_id@, post@),
            !added ==> final(self)@ == old(self)@,
    {
        proof {
            use_type_invariant(&*self);
        }
        let key = to_chars(post_id);
        let (at, found) = self.locate(&key);
        if found {
            return false;
        }
        let ghost before = self.entries@;
        let entry = FeedEntry { key, post };
        let ghost after = before.insert(at as int, entry);
        proof {
            assert(ascending(after)) by {
                assert forall|j: int, k: int| 0 <= j < k < after.len() implies text_before(
                    (#[trigger] after[j]).key@,
                    (#[trigger] after[k]).key@,
                ) by {
                    let a = if j < at { j } else { j - 1 };
                    let b = if k < at { k } else { k - 1 };
                    if j != at && k != at {
                        assert(text_before(before[a].key@, before[b].key@));
                    } else if j == at {
                        assert(after[k] == before[b]);
                    } else {
                        assert(after[j] == before[a]);
                    }
                }
            }
            assert(as_map(after) =~= as_map(before).insert(post_id@, post@)) by {
                assert(after[at as int] == entry);
                lemma_slot(after, at as int);
                assert forall|id: Seq<char>| holds(after, id) <==> (holds(before, id) || id
                    == post_id@) by {
                    if holds(after, id) {
                        let k = slot(after, id);
                        if k < at {
                            assert(before[k].key@ == id);
                        } else if k > at {
                            assert(before[k - 1].key@ == id);
                        }
                    }
                    if holds(before, id) {
                        let k = slot(before, id);
                        if k < at {
                            assert(after[k].key@ == id);
                        } else {
                            assert(after[k + 1].key@ == id);
                        }
                    }
                }
                assert forall|id: Seq<char>| holds(before, id) implies as_map(after)[id] == as_map(
                    before,
                )[id] by {
                    let k = slot(before, id);
                    lemma_slot(before, k);
                    if k < at {
                        assert(after[k] == before[k]);
                        lemma_slot(after, k);
                    } else {
                        assert(after[k + 1] == before[k]);
                        lemma_slot(after, k + 1);
                    }
                }
            }
        }
        let mut entries: Vec<FeedEntry> = Vec::new();
        core::mem::swap(&mut entries, &mut self.entries);
        entries.insert(at, entry);
        core::mem::swap(&mut entries, &mut self.entries);
        true
    }

    /// The `n` most recently created posts, the most recent first; all
    /// posts where the cache holds no more than `n`. Of posts created at
    /// the same time, the one with the later identifier comes first.
    pub fn latest(&self, n: u64) -> (posts: Vec<Post>)
        ensures
            latest_posts(self@, n as nat, views(posts@)),
            posts@.len() == if n <= self@.len() { n as nat } else { self@.len() },
            forall|j: int, k: int|
                0 <= j < k < posts@.len() ==> (#[trigger] posts@[j]).created_at >= (
                #[trigger] posts@[k]).created_at,
    {
        proof {
            use_type_invariant(self);
        }
        let count = self.entries.len();
        let wanted: usize = if n < count as u64 {
            n as usize
        } else {
            count
        };
        // The places of the leading entries among those looked at so far.
        let mut order: Vec<usize> = Vec::new();
        let mut upto: usize = 0;
        while upto < count
            invariant
                upto <= count,
                wanted <= count,
                count == self.entries@.len(),
                leads(self.entries@, order@, upto as int, wanted as int),
            decreases count - upto,
        {
            let stamp = self.entries[upto].post.created_at;
            let mut place: usize = 0;
            while place < order.len() && self.entries[order[place]].post.created_at > stamp
                invariant
                    upto < count,
                    count == self.entries@.len(),
                    leads(self.entries@, order@, upto as int, wanted as int),
                    stamp == self.entries@[upto as int].post.created_at,
                    place <= order@.len(),
                    forall|q: int|
                        0 <= q < place ==> outranks(
                            self.entries@,
                            #[trigger] order@[q] as int,
                            upto as int,
                        ),
                decreases order@.len() - place,
            {
                place += 1;
            }
            let ghost entries = self.entries@;
            let ghost before = order@;
            if place < wanted {
                order.insert(place, upto);
                let ghost grown = order@;
                proof {
                    assert forall|p: int| 0 <= p < grown.len() implies (#[trigger] grown[p]) < upto
                        + 1 by {
                        if p < place {
                            assert(grown[p] == before[p]);
                        } else if p > place {
                            assert(grown[p] == before[p - 1]);
                        }
                    }
                    assert forall|p: int, q: int| 0 <= p < q < grown.len() implies outranks(
                        entries,
                        #[trigger] grown[p] as int,
                        #[trigger] grown[q] as int,
                    ) by {
                        let a = if p < place { p } else { p - 1 };
                        let b = if q < place { q } else { q - 1 };
                        if p != place && q != place {
                            assert(outranks(entries, before[a] as int, before[b] as int));
                        } else if p == place {
                            assert(grown[q] == before[b]);
                            assert(before[b] < upto);
                            if b > place {
                                assert(outranks(
                                    entries,
                                    before[place as int] as int,
                                    before[b] as int,
                                ));
                            }
                        } else {
                            assert(grown[p] == before[a]);
                        }
                    }
                    assert forall|j: int| 0 <= j < upto && #[trigger] before.contains(
                        j as usize,
                    ) implies grown.contains(j as usize) by {
                        let q = choose|q: int| 0 <= q < before.len() && before[q] == j as usize;
                        if q < place {
                            assert(grown[q] == j as usize);
                        } else {
                            assert(grown[q + 1] == j as usize);
                        }
                    }
                    assert(grown[place as int] == upto);
                    assert forall|j: int, p: int|
                        0 <= j < upto + 1 && !grown.contains(j as usize) && 0 <= p
                            < grown.len() implies #[trigger] outranks(entries, grown[p] as int, j) by {
                        let a = if p < place { p } else { p - 1 };
                        if p != place {
                            assert(grown[p] == before[a]);
                            assert(outranks(entries, before[a] as int, j));
                        } else {
                            // What was left out is outranked by the last of
                            // those before, which the new entry outranks.
                            assert(before.contains(j as usize) ==> grown.contains(j as usize));
                            assert(before.len() == wanted);
                            let last = before[before.len() - 1];
                            assert(outranks(entries, last as int, j));
                            assert(grown[before.len() as int] == last);
                        }
                    }
                }
                proof {
                    if grown.len() == upto + 1 {
                        assert forall|j: int| 0 <= j < upto + 1 implies #[trigger] grown.contains(
                            j as usize,
                        ) by {
                            if j < upto {
                                assert(before.contains(j as usize));
                            }
                        }
                    }
                }
                if order.len() > wanted {
                    order.pop();
                    proof {
                        let kept = order@;
                        assert forall|j: int, p: int|
                            0 <= j < upto + 1 && !kept.contains(j as usize) && 0 <= p
                                < kept.len() implies #[trigger] outranks(
                            entries,
                            kept[p] as int,
                            j,
                        ) by {
                            assert(kept[p] == grown[p]);
                            if grown.contains(j as usize) {
                                let q = choose|q: int|
                                    0 <= q < grown.len() && grown[q] == j as usize;
                                if q < kept.len() {
                                    assert(kept[q] == j as usize);
                                }
                                assert(outranks(entries, grown[p] as int, grown[q] as int));
                            }
                        }
                    }
                }
            } else {
                proof {
                    assert forall|j: int, p: int|
                        0 <= j < upto + 1 && !before.contains(j as usize) && 0 <= p
                            < before.len() implies #[trigger] outranks(
                        entries,
                        before[p] as int,
                        j,
                    ) by {
                        if j == upto {
                            assert(outranks(entries, before[p] as int, upto as int));
                        }
                    }
                }
            }
            upto += 1;
        }
        let mut posts: Vec<Post> = Vec::new();
        let mut at: usize = 0;
        while at < order.len()
            invariant
                at <= order@.len(),
                count == self.entries@.len(),
                leads(self.entries@, order@, count as int, wanted as int),
                posts@.len() == at,
                forall|k: int|
                    0 <= k < at ==> (#[trigger] posts@[k])@ == self.entries@[order@[k] as int].post@,
            decreases order@.len() - at,
        {
            posts.push(self.entries[order[at]].post.clone());
            at += 1;
        }
        proof {
            let entries = self.entries@;
            let ids = Seq::new(order@.len(), |k: int| entries[order@[k] as int].key@);
            lemma_size(entries);
            assert(leads(entries, order@, entries.len() as int, n as int));
            lemma_leaders_are_latest(entries, order@, n as nat, ids);
            assert(views(posts@) =~= Seq::new(ids.len(), |k: int| self@[ids[k]]));
            lemma_latest_is_descending(self@, n as nat, views(posts@));
            assert forall|j: int, k: int| 0 <= j < k < posts@.len() implies (
            #[trigger] posts@[j]).created_at >= (#[trigger] posts@[k]).created_at by {
                assert(views(posts@)[j].created_at >= views(posts@)[k].created_at);
            }
        }
        posts
    }
}

/// Whether the cache holds a post under `post_id`.
pub fn is_feed_in_post(cache: &FeedCache, post_id: &String) -> (found: bool)
    ensures
        found == cache@.contains_key(post_id@),
{
    cache.contains(post_id.as_str())
}

} // verus!
