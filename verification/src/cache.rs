//! A bounded cache with least-recently-used eviction and a time to live per
//! entry. The entries live in an `lru::LruCache`; time is a count of
//! nanoseconds on the cache's own monotonic clock.

use lru::LruCache;
use std::num::NonZeroUsize;
use std::time::Duration;
use std::time::Instant;
use vstd::prelude::*;

verus! {

/// `lru::LruCache`: the verifier sees nothing inside it.
#[verifier::external_type_specification]
#[verifier::external_body]
#[verifier::reject_recursive_types(K)]
#[verifier::reject_recursive_types(V)]
#[verifier::reject_recursive_types(S)]
pub struct ExLruCache<K, V, S>(LruCache<K, V, S>);

/// `lru::DefaultHasher`, the hasher of an `LruCache` that is made with
/// `LruCache::new`.
#[verifier::external_type_specification]
#[verifier::external_body]
pub struct ExDefaultHasher(lru::DefaultHasher);

/// `std::time::Instant`: a point on the monotonic clock.
#[verifier::external_type_specification]
#[verifier::external_body]
pub struct ExInstant(Instant);

/// One cache entry as a value: key, cached bytes, and the instant from
/// which the entry counts as expired.
pub type Slot = (Seq<u8>, Seq<u8>, u128);

/// What an `LruCache` holds, from the most recently used entry to the least
/// recently used one.
pub uninterp spec fn lru_entries(store: LruCache<Vec<u8>, (Vec<u8>, u128)>) -> Seq<Slot>;

/// The number of entries that an `LruCache` was made to hold at most.
pub uninterp spec fn lru_capacity(store: LruCache<Vec<u8>, (Vec<u8>, u128)>) -> nat;

/// Whether some entry has the key.
pub open spec fn holds(entries: Seq<Slot>, key: Seq<u8>) -> bool {
    exists|i: int| 0 <= i < entries.len() && (#[trigger] entries[i]).0 == key
}

/// The place of the entry with the key, where there is one.
pub open spec fn index_of(entries: Seq<Slot>, key: Seq<u8>) -> int {
    choose|i: int| 0 <= i < entries.len() && (#[trigger] entries[i]).0 == key
}

/// No two entries share a key.
pub open spec fn distinct_keys(entries: Seq<Slot>) -> bool {
    forall|i: int, j: int|
        0 <= i < j < entries.len() ==> (#[trigger] entries[i]).0 != (#[trigger] entries[j]).0
}

/// The entries after the one at `i` has become the most recently used.
pub open spec fn promoted(entries: Seq<Slot>, i: int) -> Seq<Slot> {
    seq![entries[i]] + entries.remove(i)
}

/// The entries after `slot` has been put into a store of the given capacity:
/// it replaces an entry with its key, or else pushes out the least recently
/// used entry of a full store; either way it is the most recently used.
pub open spec fn inserted(entries: Seq<Slot>, capacity: nat, slot: Slot) -> Seq<Slot> {
    if holds(entries, slot.0) {
        seq![slot] + entries.remove(index_of(entries, slot.0))
    } else if entries.len() >= capacity && entries.len() > 0 {
        seq![slot] + entries.drop_last()
    } else {
        seq![slot] + entries
    }
}

/// `LruCache::new`: an empty store of capacity `capacity`.
#[verifier::external_body]
fn lru_new(capacity: usize) -> (store: LruCache<Vec<u8>, (Vec<u8>, u128)>)
    requires
        capacity > 0,
    ensures
        lru_entries(store) == Seq::<Slot>::empty(),
        lru_capacity(store) == capacity,
{
    LruCache::new(NonZeroUsize::new(capacity).unwrap())
}

/// `LruCache::len`: the number of entries held.
#[verifier::external_body]
fn lru_len(store: &LruCache<Vec<u8>, (Vec<u8>, u128)>) -> (n: usize)
    ensures
        n == lru_entries(*store).len(),
{
    store.len()
}

/// `LruCache::peek`: a copy of the entry under `key`, the order untouched.
#[verifier::external_body]
fn lru_peek(store: &LruCache<Vec<u8>, (Vec<u8>, u128)>, key: &[u8]) -> (found: Option<
    (Vec<u8>, u128),
>)
    ensures
        match found {
            Some(entry) => {
                &&& holds(lru_entries(*store), key@)
                &&& entry.0@ == lru_entries(*store)[index_of(lru_entries(*store), key@)].1
                &&& entry.1 == lru_entries(*store)[index_of(lru_entries(*store), key@)].2
            },
            None => !holds(lru_entries(*store), key@),
        },
{
    store.peek(key).cloned()
}

/// `LruCache::promote`: the entry under `key`, if there is one, becomes the
/// most recently used; the result says whether there was one. The call
/// does not unwind: hashing and comparing byte strings cannot panic.
#[verifier::external_body]
fn lru_promote(store: &mut LruCache<Vec<u8>, (Vec<u8>, u128)>, key: &[u8]) -> (found: bool)
    ensures
        found == holds(lru_entries(*old(store)), key@),
        lru_capacity(*final(store)) == lru_capacity(*old(store)),
        lru_entries(*final(store)) == if found {
            promoted(lru_entries(*old(store)), index_of(lru_entries(*old(store)), key@))
        } else {
            lru_entries(*old(store))
        },
    no_unwind
{
    store.promote(key)
}

/// `LruCache::pop`: the entry under `key`, if there is one, leaves the store
/// and is returned; the others keep their order. The call does not unwind:
/// hashing, comparing and dropping byte strings cannot panic.
#[verifier::external_body]
fn lru_pop(store: &mut LruCache<Vec<u8>, (Vec<u8>, u128)>, key: &[u8]) -> (taken: Option<
    (Vec<u8>, u128),
>)
    ensures
        lru_capacity(*final(store)) == lru_capacity(*old(store)),
        match taken {
            Some(entry) => {
                let i = index_of(lru_entries(*old(store)), key@);
                &&& holds(lru_entries(*old(store)), key@)
                &&& entry.0@ == lru_entries(*old(store))[i].1
                &&& entry.1 == lru_entries(*old(store))[i].2
                &&& lru_entries(*final(store)) == lru_entries(*old(store)).remove(i)
            },
            None => {
                &&& !holds(lru_entries(*old(store)), key@)
                &&& lru_entries(*final(store)) == lru_entries(*old(store))
            },
        },
    no_unwind
{
    store.pop(key)
}

/// `LruCache::put`: the entry replaces one with its key, or else pushes out
/// the least recently used entry of a full store, and is the most recently
/// used one after the call; see [`inserted`]. The call does not unwind:
/// hashing and comparing byte strings cannot panic.
#[verifier::external_body]
fn lru_put(
    store: &mut LruCache<Vec<u8>, (Vec<u8>, u128)>,
    key: Vec<u8>,
    value: Vec<u8>,
    expiry: u128,
)
    ensures
        lru_capacity(*final(store)) == lru_capacity(*old(store)),
        lru_entries(*final(store)) == inserted(
            lru_entries(*old(store)),
            lru_capacity(*old(store)),
            (key@, value@, expiry),
        ),
    no_unwind
{
    store.put(key, (value, expiry));
}

/// `Instant::now`: the start of a cache's clock.
#[verifier::external_body]
fn clock_start() -> Instant {
    Instant::now()
}

/// `Instant::elapsed`: the reading of a clock that started at `origin`.
/// Nothing is claimed of the reading.
#[verifier::external_body]
fn clock_read(origin: &Instant) -> Duration {
    origin.elapsed()
}

/// `Duration::as_secs`: the whole seconds of a duration.
#[verifier::external_body]
fn duration_secs(d: &Duration) -> u64 {
    d.as_secs()
}

/// The instant at which an entry put at `now` with a time to live of `ttl`
/// expires; it saturates at the end of the clock.
pub open spec fn expiry_of(now: u128, ttl: u128) -> u128 {
    if now + ttl > u128::MAX {
        u128::MAX
    } else {
        (now + ttl) as u128
    }
}

/// An entry is fresh while the clock is before its expiry.
pub open spec fn is_fresh(slot: Slot, now: u128) -> bool {
    slot.2 > now
}

/// `get`: a fresh entry is returned and becomes the most recently used; an
/// expired one is removed.
pub open spec fn spec_get(entries: Seq<Slot>, key: Seq<u8>, now: u128) -> (Seq<Slot>, Option<
    Seq<u8>,
>) {
    if holds(entries, key) {
        let i = index_of(entries, key);
        if is_fresh(entries[i], now) {
            (promoted(entries, i), Some(entries[i].1))
        } else {
            (entries.remove(i), None)
        }
    } else {
        (entries, None)
    }
}

/// `get_expired`: a fresh entry is returned and becomes the most recently
/// used; an expired one stays where it is.
pub open spec fn spec_get_expired(entries: Seq<Slot>, key: Seq<u8>, now: u128) -> (
    Seq<Slot>,
    Option<Seq<u8>>,
) {
    if holds(entries, key) && is_fresh(entries[index_of(entries, key)], now) {
        let i = index_of(entries, key);
        (promoted(entries, i), Some(entries[i].1))
    } else {
        (entries, None)
    }
}

/// `get_expired_fallback`: an entry is returned, fresh or not, and becomes
/// the most recently used.
pub open spec fn spec_get_fallback(entries: Seq<Slot>, key: Seq<u8>) -> (
    Seq<Slot>,
    Option<Seq<u8>>,
) {
    if holds(entries, key) {
        let i = index_of(entries, key);
        (promoted(entries, i), Some(entries[i].1))
    } else {
        (entries, None)
    }
}

/// The cache as a value.
pub struct CacheView {
    /// The entries, most recently used first.
    pub entries: Seq<Slot>,
    /// The bound on their number.
    pub capacity: nat,
}

/// A bounded LRU cache from keys to byte strings, each entry with an expiry.
pub struct Cache {
    lru_cache: LruCache<Vec<u8>, (Vec<u8>, u128)>,
    origin: Instant,
}

impl View for Cache {
    type V = CacheView;

    closed spec fn view(&self) -> CacheView {
        CacheView { entries: lru_entries(self.lru_cache), capacity: lru_capacity(self.lru_cache) }
    }
}

impl CacheView {
    /// The cache with other entries and the same capacity.
    pub open spec fn with(self, entries: Seq<Slot>) -> CacheView {
        CacheView { entries, capacity: self.capacity }
    }

    /// What holds of every cache: a capacity of at least one, never more
    /// entries than that, and no key twice.
    pub open spec fn well_formed(self) -> bool {
        &&& self.capacity >= 1
        &&& self.entries.len() <= self.capacity
        &&& distinct_keys(self.entries)
    }
}

impl Cache {
    #[verifier::type_invariant]
    spec fn inv(self) -> bool {
        self@.well_formed()
    }

    /// An empty cache for at most `max_size` entries.
    pub fn new(max_size: usize) -> (cache: Cache)
        requires
            max_size > 0,
        ensures
            cache@.entries == Seq::<Slot>::empty(),
            cache@.capacity == max_size,
            cache@.well_formed(),
    {
        Cache { lru_cache: lru_new(max_size), origin: clock_start() }
    }

    /// The number of entries, expired ones included.
    pub fn len(&self) -> (n: usize)
        ensures
            n == self@.entries.len(),
            n <= self@.capacity,
            self@.well_formed(),
    {
        proof {
            use_type_invariant(self);
        }
        lru_len(&self.lru_cache)
    }
}


/// With distinct keys the entry under a key is at one place only.
pub proof fn lemma_index_unique(entries: Seq<Slot>, key: Seq<u8>, i: int)
    requires
        distinct_keys(entries),
        0 <= i < entries.len(),
        entries[i].0 == key,
    ensures
        holds(entries, key),
        index_of(entries, key) == i,
{
    let j = index_of(entries, key);
    assert(0 <= j < entries.len() && entries[j].0 == key);
    if j < i {
        assert(entries[j].0 != entries[i].0);
    } else if i < j {
        assert(entries[i].0 != entries[j].0);
    }
}

/// Taking an entry out keeps the keys distinct, and its key is gone.
pub proof fn lemma_remove(entries: Seq<Slot>, i: int)
    requires
        distinct_keys(entries),
        0 <= i < entries.len(),
    ensures
        distinct_keys(entries.remove(i)),
        !holds(entries.remove(i), entries[i].0),
        entries.remove(i).len() == entries.len() - 1,
        forall|key: Seq<u8>|
            key != entries[i].0 ==> (holds(entries.remove(i), key) <==> holds(entries, key)),
{
    let rest = entries.remove(i);
    assert forall|a: int, b: int| 0 <= a < b < rest.len() implies (#[trigger] rest[a]).0 != (
    #[trigger] rest[b]).0 by {
        let a0 = if a < i { a } else { a + 1 };
        let b0 = if b < i { b } else { b + 1 };
        assert(rest[a] == entries[a0]);
        assert(rest[b] == entries[b0]);
        assert(entries[a0].0 != entries[b0].0);
    }
    if holds(rest, entries[i].0) {
        let a = index_of(rest, entries[i].0);
        let a0 = if a < i { a } else { a + 1 };
        assert(rest[a] == entries[a0]);
        if a0 < i {
            assert(entries[a0].0 != entries[i].0);
        } else {
            assert(entries[i].0 != entries[a0].0);
        }
    }
    assert forall|key: Seq<u8>| key != entries[i].0 implies (holds(rest, key) <==> holds(
        entries,
        key,
    )) by {
        if holds(rest, key) {
            let a = index_of(rest, key);
            let a0 = if a < i { a } else { a + 1 };
            assert(rest[a] == entries[a0]);
            assert(entries[a0].0 == key);
        }
        if holds(entries, key) {
            let b = index_of(entries, key);
            let b1 = if b < i { b } else { b - 1 };
            assert(rest[b1] == entries[b]);
            assert(rest[b1].0 == key);
        }
    }
}

/// Putting an entry whose key is absent in front keeps the keys distinct.
pub proof fn lemma_push_front(entries: Seq<Slot>, slot: Slot)
    requires
        distinct_keys(entries),
        !holds(entries, slot.0),
    ensures
        distinct_keys(seq![slot] + entries),
        holds(seq![slot] + entries, slot.0),
        index_of(seq![slot] + entries, slot.0) == 0,
{
    let all = seq![slot] + entries;
    assert forall|a: int, b: int| 0 <= a < b < all.len() implies (#[trigger] all[a]).0 != (
    #[trigger] all[b]).0 by {
        assert(all[b] == entries[b - 1]);
        if a == 0 {
            assert(all[a] == slot);
            assert(entries[b - 1].0 != slot.0);
        } else {
            assert(all[a] == entries[a - 1]);
            assert(entries[a - 1].0 != entries[b - 1].0);
        }
    }
    assert(all[0].0 == slot.0);
    lemma_index_unique(all, slot.0, 0);
}

/// Promotion keeps a cache well formed: the same entries, the promoted one
/// first.
pub proof fn lemma_promoted(entries: Seq<Slot>, i: int)
    requires
        distinct_keys(entries),
        0 <= i < entries.len(),
    ensures
        distinct_keys(promoted(entries, i)),
        promoted(entries, i).len() == entries.len(),
        promoted(entries, i)[0] == entries[i],
        holds(promoted(entries, i), entries[i].0),
        index_of(promoted(entries, i), entries[i].0) == 0,
{
    lemma_remove(entries, i);
    lemma_push_front(entries.remove(i), entries[i]);
}

/// Dropping the least recently used entry keeps the keys distinct.
pub proof fn lemma_drop_last(entries: Seq<Slot>, key: Seq<u8>)
    requires
        distinct_keys(entries),
        entries.len() > 0,
        !holds(entries, key),
    ensures
        distinct_keys(entries.drop_last()),
        !holds(entries.drop_last(), key),
{
    let rest = entries.drop_last();
    assert forall|a: int, b: int| 0 <= a < b < rest.len() implies (#[trigger] rest[a]).0 != (
    #[trigger] rest[b]).0 by {
        assert(rest[a] == entries[a]);
        assert(rest[b] == entries[b]);
    }
    if holds(rest, key) {
        let a = index_of(rest, key);
        assert(rest[a] == entries[a]);
        assert(entries[a].0 == key);
    }
}

/// A put keeps a cache well formed, and the entry put is then the most
/// recently used one.
pub proof fn lemma_inserted(entries: Seq<Slot>, capacity: nat, slot: Slot)
    requires
        distinct_keys(entries),
        entries.len() <= capacity,
        capacity >= 1,
    ensures
        distinct_keys(inserted(entries, capacity, slot)),
        inserted(entries, capacity, slot).len() <= capacity,
        inserted(entries, capacity, slot).len() >= 1,
        inserted(entries, capacity, slot)[0] == slot,
        holds(inserted(entries, capacity, slot), slot.0),
        index_of(inserted(entries, capacity, slot), slot.0) == 0,
{
    if holds(entries, slot.0) {
        let i = index_of(entries, slot.0);
        lemma_remove(entries, i);
        lemma_push_front(entries.remove(i), slot);
    } else if entries.len() >= capacity && entries.len() > 0 {
        lemma_drop_last(entries, slot.0);
        lemma_push_front(entries.drop_last(), slot);
    } else {
        lemma_push_front(entries, slot);
    }
}

impl Cache {
    /// The reading of the cache's clock: nanoseconds since the cache was
    /// made.
    pub fn now(&self) -> (reading: u128)
        ensures
            reading < CLOCK_END,
    {
        let elapsed = clock_read(&self.origin);
        duration_nanos(&elapsed)
    }

    /// Looks `k` up at the instant `now`. A fresh entry is returned and
    /// becomes the most recently used. An expired entry is removed.
    pub fn get_at(&mut self, k: &[u8], now: u128) -> (value: Option<Vec<u8>>)
        ensures
            final(self)@.capacity == old(self)@.capacity,
            final(self)@.entries == spec_get(old(self)@.entries, k@, now).0,
            match value {
                Some(v) => spec_get(old(self)@.entries, k@, now).1 == Some(v@),
                None => spec_get(old(self)@.entries, k@, now).1 is None,
            },
            final(self)@.well_formed(),
    {
        proof {
            use_type_invariant(&*self);
        }
        let ghost entries = lru_entries(self.lru_cache);
        match lru_peek(&self.lru_cache, k) {
            Some(entry) => {
                proof {
                    let i = index_of(entries, k@);
                    lemma_promoted(entries, i);
                    lemma_remove(entries, i);
                }
                if entry.1 > now {
                    lru_promote(&mut self.lru_cache, k);
                    Some(entry.0)
                } else {
                    lru_pop(&mut self.lru_cache, k);
                    None
                }
            },
            None => None,
        }
    }

    /// Looks `k` up at the present instant; see [`Cache::get_at`].
    pub fn get(&mut self, k: &[u8]) -> (value: Option<Vec<u8>>)
        ensures
            final(self)@.capacity == old(self)@.capacity,
            final(self)@.well_formed(),
            exists|now: u128|
                {
                    &&& now < CLOCK_END
                    &&& final(self)@.entries == (#[trigger] spec_get(
                        old(self)@.entries,
                        k@,
                        now,
                    )).0
                    &&& match value {
                        Some(v) => spec_get(old(self)@.entries, k@, now).1 == Some(v@),
                        None => spec_get(old(self)@.entries, k@, now).1 is None,
                    }
                },
    {
        let now = self.now();
        self.get_at(k, now)
    }

    /// Looks `k` up at the instant `now` without ever removing an entry. A
    /// fresh entry is returned and becomes the most recently used. An
    /// expired entry stays where it is, to be had by
    /// [`Cache::get_expired_fallback`].
    pub fn get_expired_at(&mut self, k: &[u8], now: u128) -> (value: Option<Vec<u8>>)
        ensures
            final(self)@.capacity == old(self)@.capacity,
            final(self)@.entries == spec_get_expired(old(self)@.entries, k@, now).0,
            match value {
                Some(v) => spec_get_expired(old(self)@.entries, k@, now).1 == Some(v@),
                None => spec_get_expired(old(self)@.entries, k@, now).1 is None,
            },
            final(self)@.well_formed(),
    {
        proof {
            use_type_invariant(&*self);
        }
        let ghost entries = lru_entries(self.lru_cache);
        match lru_peek(&self.lru_cache, k) {
            Some(entry) => {
                if entry.1 > now {
                    proof {
                        lemma_promoted(entries, index_of(entries, k@));
                    }
                    lru_promote(&mut self.lru_cache, k);
                    Some(entry.0)
                } else {
                    None
                }
            },
            None => None,
        }
    }

    /// Looks `k` up at the present instant; see [`Cache::get_expired_at`].
    pub fn get_expired(&mut self, k: &[u8]) -> (value: Option<Vec<u8>>)
        ensures
            final(self)@.capacity == old(self)@.capacity,
            final(self)@.well_formed(),
            exists|now: u128|
                {
                    &&& now < CLOCK_END
                    &&& final(self)@.entries == (#[trigger] spec_get_expired(
                        old(self)@.entries,
                        k@,
                        now,
                    )).0
                    &&& match value {
                        Some(v) => spec_get_expired(old(self)@.entries, k@, now).1 == Some(v@),
                        None => spec_get_expired(old(self)@.entries, k@, now).1 is None,
                    }
                },
    {
        let now = self.now();
        self.get_expired_at(k, now)
    }

    /// Looks `k` up whatever the time: an entry is returned, expired or
    /// not, and becomes the most recently used.
    pub fn get_expired_fallback(&mut self, k: &[u8]) -> (value: Option<Vec<u8>>)
        ensures
            final(self)@.capacity == old(self)@.capacity,
            final(self)@.entries == spec_get_fallback(old(self)@.entries, k@).0,
            match value {
                Some(v) => spec_get_fallback(old(self)@.entries, k@).1 == Some(v@),
                None => spec_get_fallback(old(self)@.entries, k@).1 is None,
            },
            final(self)@.well_formed(),
    {
        proof {
            use_type_invariant(&*self);
        }
        let ghost entries = lru_entries(self.lru_cache);
        match lru_peek(&self.lru_cache, k) {
            Some(entry) => {
                proof {
                    lemma_promoted(entries, index_of(entries, k@));
                }
                lru_promote(&mut self.lru_cache, k);
                Some(entry.0)
            },
            None => None,
        }
    }

    /// Puts `v` under `k` at the instant `now`, to expire `ttl` nanoseconds
    /// later. The entry becomes the most recently used; where the cache is
    /// full and `k` is new, the least recently used entry makes room.
    pub fn put_at(&mut self, k: Vec<u8>, v: Vec<u8>, ttl: u128, now: u128)
        ensures
            final(self)@.capacity == old(self)@.capacity,
            final(self)@.entries == inserted(
                old(self)@.entries,
                old(self)@.capacity,
                (k@, v@, expiry_of(now, ttl)),
            ),
            final(self)@.well_formed(),
    {
        proof {
            use_type_invariant(&*self);
            lemma_inserted(
                lru_entries(self.lru_cache),
                lru_capacity(self.lru_cache),
                (k@, v@, expiry_of(now, ttl)),
            );
        }
        let expiry = now.saturating_add(ttl);
        lru_put(&mut self.lru_cache, k, v, expiry);
    }

    /// Puts `v` under `k` at the present instant, to expire after `d`; see
    /// [`Cache::put_at`]. The expiry is the reading of the clock plus the
    /// length of `d`: within the range of the clock it never saturates.
    pub fn put(&mut self, k: Vec<u8>, v: Vec<u8>, d: Duration)
        ensures
            final(self)@.capacity == old(self)@.capacity,
            final(self)@.well_formed(),
            exists|now: u128, ttl: u128|
                {
                    &&& now < CLOCK_END
                    &&& ttl < CLOCK_END
                    &&& #[trigger] expiry_of(now, ttl) == now + ttl
                    &&& final(self)@.entries == inserted(
                        old(self)@.entries,
                        old(self)@.capacity,
                        (k@, v@, expiry_of(now, ttl)),
                    )
                },
    {
        let ttl = duration_nanos(&d);
        let now = self.now();
        self.put_at(k, v, ttl, now)
    }
}


/// Neither a put nor any of the three look-ups lets a cache outgrow its
/// capacity or hold a key twice.
pub proof fn lemma_capacity_is_kept(
    cache: CacheView,
    key: Seq<u8>,
    value: Seq<u8>,
    expiry: u128,
    now: u128,
)
    requires
        cache.well_formed(),
    ensures
        cache.with(inserted(cache.entries, cache.capacity, (key, value, expiry))).well_formed(),
        cache.with(spec_get(cache.entries, key, now).0).well_formed(),
        cache.with(spec_get_expired(cache.entries, key, now).0).well_formed(),
        cache.with(spec_get_fallback(cache.entries, key).0).well_formed(),
{
    lemma_inserted(cache.entries, cache.capacity, (key, value, expiry));
    if holds(cache.entries, key) {
        let i = index_of(cache.entries, key);
        lemma_promoted(cache.entries, i);
        lemma_remove(cache.entries, i);
    }
}

/// A value that was put is what `get` returns for its key for as long as
/// the entry has not expired.
pub proof fn lemma_get_after_put(
    cache: CacheView,
    key: Seq<u8>,
    value: Seq<u8>,
    now: u128,
    ttl: u128,
    later: u128,
)
    requires
        cache.well_formed(),
        later < expiry_of(now, ttl),
    ensures
        spec_get(
            inserted(cache.entries, cache.capacity, (key, value, expiry_of(now, ttl))),
            key,
            later,
        ).1 == Some(value),
        spec_get_expired(
            inserted(cache.entries, cache.capacity, (key, value, expiry_of(now, ttl))),
            key,
            later,
        ).1 == Some(value),
{
    lemma_inserted(cache.entries, cache.capacity, (key, value, expiry_of(now, ttl)));
}

/// Once an entry has expired, `get` returns nothing for its key and removes
/// the entry; `get_expired` returns nothing and leaves the cache as it was;
/// `get_expired_fallback` still returns the value.
pub proof fn lemma_lookups_after_expiry(
    cache: CacheView,
    key: Seq<u8>,
    value: Seq<u8>,
    now: u128,
    ttl: u128,
    later: u128,
)
    requires
        cache.well_formed(),
        later >= expiry_of(now, ttl),
    ensures
        ({
            let after_put = inserted(
                cache.entries,
                cache.capacity,
                (key, value, expiry_of(now, ttl)),
            );
            &&& spec_get(after_put, key, later).1 is None
            &&& !holds(spec_get(after_put, key, later).0, key)
            &&& spec_get(after_put, key, later).0 == after_put.remove(0)
            &&& spec_get_expired(after_put, key, later) == (after_put, None::<Seq<u8>>)
            &&& spec_get_fallback(after_put, key).1 == Some(value)
        }),
{
    let slot = (key, value, expiry_of(now, ttl));
    let after_put = inserted(cache.entries, cache.capacity, slot);
    lemma_inserted(cache.entries, cache.capacity, slot);
    lemma_remove(after_put, 0);
}


/// What a look-up returns was put under the key and has not expired: `get`
/// and `get_expired` never return an entry whose expiry has come.
pub proof fn lemma_returned_is_fresh(cache: CacheView, key: Seq<u8>, now: u128)
    requires
        cache.well_formed(),
    ensures
        spec_get(cache.entries, key, now).1 == spec_get_expired(cache.entries, key, now).1,
        spec_get(cache.entries, key, now).1 matches Some(value) ==> {
            &&& holds(cache.entries, key)
            &&& cache.entries[index_of(cache.entries, key)].1 == value
            &&& cache.entries[index_of(cache.entries, key)].2 > now
        },
{
}

/// The least recently used entry is the one that goes. In a cache for two
/// entries, after a put under one key, a put under a second key, a look-up
/// of the first while it is fresh, and a put under a third key, the first
/// key is still there and the second is gone.
pub proof fn lemma_least_recently_used_goes(
    first: Slot,
    second: Slot,
    third: Slot,
    now: u128,
)
    requires
        first.0 != second.0,
        first.0 != third.0,
        second.0 != third.0,
        is_fresh(first, now),
    ensures
        ({
            let one = inserted(Seq::<Slot>::empty(), 2, first);
            let two = inserted(one, 2, second);
            let looked_up = spec_get(two, first.0, now);
            let three = inserted(looked_up.0, 2, third);
            &&& looked_up.1 == Some(first.1)
            &&& three == seq![third, first]
            &&& holds(three, first.0)
            &&& !holds(three, second.0)
            &&& holds(three, third.0)
        }),
{
    let empty = Seq::<Slot>::empty();
    let one = inserted(empty, 2, first);
    assert(!holds(empty, first.0));
    assert(one =~= seq![first]);
    assert(distinct_keys(one));
    if holds(one, second.0) {
        let i = index_of(one, second.0);
        assert(one[i].0 == second.0);
    }
    let two = inserted(one, 2, second);
    assert(two =~= seq![second, first]);
    assert(distinct_keys(two));
    assert(two[1].0 == first.0);
    lemma_index_unique(two, first.0, 1);
    let looked_up = spec_get(two, first.0, now);
    assert(looked_up.0 =~= seq![first, second]);
    assert(distinct_keys(looked_up.0));
    if holds(looked_up.0, third.0) {
        let i = index_of(looked_up.0, third.0);
        assert(looked_up.0[i].0 == third.0);
    }
    let three = inserted(looked_up.0, 2, third);
    assert(three =~= seq![third, first]);
    assert(three[1].0 == first.0);
    assert(three[0].0 == third.0);
    if holds(three, second.0) {
        let i = index_of(three, second.0);
        assert(three[i].0 == second.0);
    }
}

/// The end of the clock, in nanoseconds: a reading, like the length of any
/// `Duration`, is a number of whole seconds that fits 64 bits and less than
/// a second on top of it.
pub const CLOCK_END: u128 = 18_446_744_073_709_551_616_000_000_000;

/// `Duration::subsec_nanos`: what a duration has beyond its whole seconds,
/// in nanoseconds; it is less than a second.
#[verifier::external_body]
fn duration_subsec_nanos(d: &Duration) -> (fraction: u32)
    ensures
        fraction < 1_000_000_000,
{
    d.subsec_nanos()
}

/// The length of a duration in nanoseconds.
fn duration_nanos(d: &Duration) -> (length: u128)
    ensures
        length < CLOCK_END,
{
    let seconds: u64 = duration_secs(d);
    let fraction: u32 = duration_subsec_nanos(d);
    (seconds as u128) * 1_000_000_000 + (fraction as u128)
}

} // verus!
