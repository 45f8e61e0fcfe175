//! The requests that wait for an answer from the data managers, kept in a
//! cache that forgets the oldest of them.

use crate::personas::request::{PutRequest, PutRequestView};
use lru_time_cache::LruCache;
use vstd::prelude::*;

verus! {

/// The longest time to live that a cache may be given, in milliseconds: a day.
pub const MAX_TIME_TO_LIVE: i64 = 86_400_000;

/// `lru_time_cache::LruCache`, of which only what the functions below say
/// is known.
#[verifier::external_type_specification]
#[verifier::external_body]
#[verifier::reject_recursive_types(Key)]
#[verifier::reject_recursive_types(Value)]
pub struct ExLruCache<Key, Value>(LruCache<Key, Value>);

/// The requests that a cache holds, by message identifier, whether or not
/// their time has run out.
pub uninterp spec fn cached_requests(cache: LruCache<[u8; 64], PutRequest>) -> Map<Seq<u8>, PutRequestView>;

/// The number of requests that a cache was made to hold.
pub uninterp spec fn cache_limit(cache: LruCache<[u8; 64], PutRequest>) -> nat;

/// The time that a cache was made to keep a request, in milliseconds.
pub uninterp spec fn cache_lifetime(cache: LruCache<[u8; 64], PutRequest>) -> int;

/// The cache holds finitely many requests, and no more than it was made to
/// hold.
pub open spec fn within_limit(cache: LruCache<[u8; 64], PutRequest>) -> bool {
    cached_requests(cache).dom().finite() && cached_requests(cache).dom().len() <= cache_limit(
        cache,
    )
}

/// `LruCache::with_expiry_duration_and_capacity`, with the time to live made
/// by `time::Duration::milliseconds`: the cache starts empty and keeps the
/// capacity and the time to live it was given.
#[verifier::external_body]
pub(crate) fn cache_with_limits(time_to_live: i64, capacity: usize) -> (cache: LruCache<[u8; 64], PutRequest>)
    requires
        0 <= time_to_live <= MAX_TIME_TO_LIVE,
    ensures
        cached_requests(cache).dom() == Set::<Seq<u8>>::empty(),
        cache_limit(cache) == capacity,
        cache_lifetime(cache) == time_to_live,
{
    LruCache::with_expiry_duration_and_capacity(
        time::Duration::milliseconds(time_to_live),
        capacity,
    )
}

/// `LruCache::insert`: the request is held under `id` afterwards, and what was
/// held under `id` before is handed back. Where `id` was held already,
/// nothing else changes. Where it was not, the cache first drops entries from
/// its old end, those whose time has run out and as many more as its
/// capacity asks: which ones is not said here, only that what stays is what
/// was there, and that a cache that held no more than its capacity holds no
/// more than that afterwards. A cache made for no entry at all would never
/// return.
#[verifier::external_body]
pub(crate) fn cache_insert(
    cache: &mut LruCache<[u8; 64], PutRequest>,
    id: [u8; 64],
    request: PutRequest,
) -> (prior: Option<PutRequest>)
    requires
        cache_limit(*old(cache)) > 0,
    ensures
        cache_limit(*final(cache)) == cache_limit(*old(cache)),
        cache_lifetime(*final(cache)) == cache_lifetime(*old(cache)),
        cached_requests(*final(cache)).dom().contains(id@),
        cached_requests(*final(cache))[id@] == request@,
        forall|other: Seq<u8>|
            other != id@ && #[trigger] cached_requests(*final(cache)).dom().contains(other)
                ==> cached_requests(*old(cache)).dom().contains(other) && cached_requests(
                *final(cache),
            )[other] == cached_requests(*old(cache))[other],
        cached_requests(*old(cache)).dom().contains(id@) ==> cached_requests(*final(cache))
            == cached_requests(*old(cache)).insert(id@, request@),
        within_limit(*old(cache)) ==> within_limit(*final(cache)),
        match prior {
            Some(p) => cached_requests(*old(cache)).dom().contains(id@) && p@ == cached_requests(
                *old(cache),
            )[id@],
            None => !cached_requests(*old(cache)).dom().contains(id@),
        },
{
    cache.insert(id, request)
}

/// `LruCache::contains_key`: whether a request is held under `id` whose time
/// has not run out. The clock decides, so of a request that is held either
/// answer may come; of one that is not held the answer is no.
#[verifier::external_body]
pub(crate) fn cache_holds(cache: &LruCache<[u8; 64], PutRequest>, id: &[u8; 64]) -> (live: bool)
    ensures
        live ==> cached_requests(*cache).dom().contains(id@),
{
    cache.contains_key(id)
}

/// `LruCache::remove`: what was held under `id` is handed back and is held
/// no longer; every other entry stays, also one whose time has run out.
#[verifier::external_body]
pub(crate) fn cache_remove(cache: &mut LruCache<[u8; 64], PutRequest>, id: &[u8; 64]) -> (gone: Option<PutRequest>)
    ensures
        cache_limit(*final(cache)) == cache_limit(*old(cache)),
        cache_lifetime(*final(cache)) == cache_lifetime(*old(cache)),
        cached_requests(*final(cache)) == cached_requests(*old(cache)).remove(id@),
        match gone {
            Some(p) => cached_requests(*old(cache)).dom().contains(id@) && p@ == cached_requests(
                *old(cache),
            )[id@],
            None => !cached_requests(*old(cache)).dom().contains(id@),
        },
{
    cache.remove(id)
}

} // verus!
