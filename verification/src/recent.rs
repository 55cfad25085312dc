//! The correlation cache: when an encrypted push last reached an endpoint.
//!
//! Times are nanoseconds on a clock that does not run backwards.

use vstd::hash_map::StringHashMap;
use vstd::prelude::*;

verus! {

/// Correlation window: how long a Simple Push waits for a matching encrypted
/// push before it is forwarded.
pub const CORRELATION_WINDOW_MILLIS: u64 = 200;

/// How old an encrypted push may be and still count as evidence that an event
/// was delivered. This is the eviction threshold rather than the correlation
/// window: under load an encrypted push may well arrive more than the window
/// ahead of its Simple Push, and needs no second wake-up.
pub const LOOKUP_AGE_NANOS: u64 = 2_000_000_000;

/// How old an entry must be to be evicted.
pub const EVICT_AFTER_NANOS: u64 = 2_000_000_000;

/// How often the cache is cleaned up.
pub const CLEANUP_INTERVAL_SECS: u64 = 5;

/// The time from `then` to `now`; zero where `then` lies ahead.
pub open spec fn elapsed(then: u64, now: u64) -> int {
    if then <= now {
        now - then
    } else {
        0
    }
}

/// Whether an encrypted push for `key` is on record that is recent enough at
/// `now`.
pub open spec fn recent_within(posts: Map<Seq<char>, u64>, key: Seq<char>, now: u64) -> bool {
    posts.contains_key(key) && elapsed(posts[key], now) < LOOKUP_AGE_NANOS
}

/// The entries that are not yet due for eviction at `now`.
pub open spec fn unexpired(posts: Map<Seq<char>, u64>, now: u64) -> Map<Seq<char>, u64> {
    Map::new(
        |key: Seq<char>| posts.contains_key(key) && elapsed(posts[key], now) < EVICT_AFTER_NANOS,
        |key: Seq<char>| posts[key],
    )
}

/// Whether the list `keys` holds `key`.
spec fn lists(keys: Seq<String>, key: Seq<char>) -> bool {
    exists|i: int| 0 <= i < keys.len() && (#[trigger] keys[i])@ == key
}

proof fn lemma_lists_push(keys: Seq<String>, last: String, key: Seq<char>)
    ensures
        lists(keys.push(last), key) <==> lists(keys, key) || last@ == key,
{
    let longer = keys.push(last);
    if lists(keys, key) {
        let i = choose|i: int| 0 <= i < keys.len() && (#[trigger] keys[i])@ == key;
        assert(longer[i]@ == key);
    }
    if last@ == key {
        assert(longer[keys.len() as int]@ == key);
    }
}

/// The time of the last encrypted push that was delivered, by endpoint.
pub struct RecentPosts {
    times: StringHashMap<u64>,
    keys: Vec<String>,
}

impl View for RecentPosts {
    type V = Map<Seq<char>, u64>;

    closed spec fn view(&self) -> Map<Seq<char>, u64> {
        self.times@
    }
}

impl RecentPosts {
    /// The list of keys names every entry of the map.
    #[verifier::type_invariant]
    spec fn wf(self) -> bool {
        forall|key: Seq<char>| #[trigger]
            self.times@.contains_key(key) ==> lists(self.keys@, key)
    }

    /// An empty cache.
    pub fn new() -> (posts: RecentPosts)
        ensures
            posts@ == Map::<Seq<char>, u64>::empty(),
    {
        RecentPosts { times: StringHashMap::new(), keys: Vec::new() }
    }

    /// Records an encrypted push that was delivered to `key` at `now`.
    pub fn record(&mut self, key: &str, now: u64)
        ensures
            final(self)@ == old(self)@.insert(key@, now),
    {
        proof {
            use_type_invariant(&*self);
        }
        let mut times: StringHashMap<u64> = StringHashMap::new();
        let mut keys: Vec<String> = Vec::new();
        std::mem::swap(&mut times, &mut self.times);
        std::mem::swap(&mut keys, &mut self.keys);
        let ghost known = keys@;
        if !times.contains_key(key) {
            keys.push(key.to_owned());
        }
        times.insert(key.to_owned(), now);
        proof {
            assert forall|k: Seq<char>| #[trigger] times@.contains_key(k) implies lists(
                keys@,
                k,
            ) by {
                if keys@ != known {
                    lemma_lists_push(known, keys@.last(), k);
                    assert(keys@ =~= known.push(keys@.last()));
                }
            }
        }
        self.keys = keys;
        self.times = times;
    }
}

/// Whether an encrypted push for `key` was delivered recently enough at `now`.
pub fn recent_post_within_window(cache: &RecentPosts, key: &str, now: u64) -> (recent: bool)
    ensures
        recent == recent_within(cache@, key@, now),
{
    match cache.times.get(key) {
        Some(then) => {
            let then: u64 = *then;
            let age: u64 = if then <= now {
                now - then
            } else {
                0
            };
            age < LOOKUP_AGE_NANOS
        },
        None => false,
    }
}

/// Evicts the entries that are stale at `now`.
pub fn cleanup_recent_posts(cache: &mut RecentPosts, now: u64)
    ensures
        final(cache)@ == unexpired(old(cache)@, now),
{
    proof {
        use_type_invariant(&*cache);
    }
    let mut times: StringHashMap<u64> = StringHashMap::new();
    let mut keys: Vec<String> = Vec::new();
    std::mem::swap(&mut times, &mut cache.times);
    std::mem::swap(&mut keys, &mut cache.keys);
    let ghost posts = times@;
    let ghost end = unexpired(posts, now);
    let mut kept: Vec<String> = Vec::new();
    let mut i: usize = 0;
    while i < keys.len()
        invariant
            i <= keys@.len(),
            end == unexpired(posts, now),
            forall|k: Seq<char>| #[trigger]
                times@.contains_key(k) <==> posts.contains_key(k) && (lists(
                    keys@.take(i as int),
                    k,
                ) ==> end.contains_key(k)),
            forall|k: Seq<char>| #[trigger] times@.contains_key(k) ==> times@[k] == posts[k],
            forall|k: Seq<char>|
                lists(keys@.take(i as int), k) && #[trigger] end.contains_key(k) ==> lists(kept@, k),
        decreases keys@.len() - i,
    {
        let ghost kept_before = kept@;
        let key = keys[i].clone();
        proof {
            assert(keys@.take(i + 1) =~= keys@.take(i as int).push(key));
            assert forall|k: Seq<char>| #[trigger] lists(keys@.take(i + 1), k) <==> lists(
                keys@.take(i as int),
                k,
            ) || key@ == k by {
                lemma_lists_push(keys@.take(i as int), key, k);
            }
            assert forall|k: Seq<char>| #[trigger] lists(kept_before.push(key), k) <==> lists(
                kept_before,
                k,
            ) || key@ == k by {
                lemma_lists_push(kept_before, key, k);
            }
        }
        let found: Option<u64> = match times.get(key.as_str()) {
            Some(then) => Some(*then),
            None => None,
        };
        if let Some(then) = found {
            let age: u64 = if then <= now {
                now - then
            } else {
                0
            };
            if age < EVICT_AFTER_NANOS {
                kept.push(key);
            } else {
                times.remove(key.as_str());
            }
        }
        i = i + 1;
    }
    proof {
        assert(keys@.take(keys@.len() as int) =~= keys@);
        assert(times@ =~= end);
    }
    cache.keys = kept;
    cache.times = times;
}

/// A delivered push counts for as long as the lookup age, and not longer.
pub proof fn law_record_counts_for_the_lookup_age(
    posts: Map<Seq<char>, u64>,
    key: Seq<char>,
    then: u64,
    now: u64,
)
    ensures
        recent_within(posts.insert(key, then), key, now) <==> now < then + LOOKUP_AGE_NANOS,
{
}

/// A delivered push says nothing about another endpoint.
pub proof fn law_record_concerns_one_endpoint(
    posts: Map<Seq<char>, u64>,
    key: Seq<char>,
    other: Seq<char>,
    then: u64,
    now: u64,
)
    requires
        key != other,
    ensures
        recent_within(posts.insert(key, then), other, now) == recent_within(posts, other, now),
{
}

/// Eviction is invisible: it changes the answer to no lookup, now or later.
pub proof fn law_eviction_is_invisible(
    posts: Map<Seq<char>, u64>,
    key: Seq<char>,
    now: u64,
    later: u64,
)
    requires
        now <= later,
    ensures
        recent_within(unexpired(posts, now), key, later) == recent_within(posts, key, later),
{
}

/// A delivery counts as recent exactly where it is on record and less than two
/// seconds old. One that lies ahead counts as just made.
pub proof fn law_recent_means_less_than_two_seconds_ago(
    posts: Map<Seq<char>, u64>,
    key: Seq<char>,
    now: u64,
)
    ensures
        recent_within(posts, key, now) <==> posts.contains_key(key) && now < posts[key]
            + 2_000_000_000,
{
}

/// Eviction takes away the entries that are two seconds old or older, and no
/// others, and leaves each of the others with its time.
pub proof fn law_eviction_takes_stale_entries_only(
    posts: Map<Seq<char>, u64>,
    key: Seq<char>,
    now: u64,
)
    ensures
        unexpired(posts, now).contains_key(key) <==> posts.contains_key(key) && now < posts[key]
            + 2_000_000_000,
        unexpired(posts, now).contains_key(key) ==> unexpired(posts, now)[key] == posts[key],
{
}

/// The times of the correlation: a Simple Push waits 200 milliseconds, and a
/// delivery stays on record for as long as it counts.
pub proof fn law_records_live_as_long_as_they_count()
    ensures
        CORRELATION_WINDOW_MILLIS == 200,
        LOOKUP_AGE_NANOS == EVICT_AFTER_NANOS,
        CORRELATION_WINDOW_MILLIS * 1_000_000 < LOOKUP_AGE_NANOS,
{
}

} // verus!
