//! The response cache.
//!
//! The cache keeps whole responses under a key made of the request's
//! method, path and query string. An entry answers lookups while
//! `now < inserted_at + ttl`; after that it counts as absent and is dropped
//! by the lookup that finds it or by a sweep. The cache holds at most
//! `capacity` entries: when a new key would exceed that, the stale entries
//! go first, and if that makes no room, the entry that was used least
//! recently does.
//!
//! The query string is part of the key exactly as the client sent it. Two
//! requests whose queries differ only in the order of their parameters are
//! different keys.

use crate::shared::share;
use crate::text::str_eq;
use std::sync::Arc;
use vstd::prelude::*;
use vstd::string::*;

verus! {

/// A response as it is kept and replayed.
#[derive(Debug)]
pub struct CachedResponse {
    pub status: u16,
    pub headers: Vec<(String, String)>,
    pub body: Vec<u8>,
    /// When the response entered the cache, in milliseconds.
    pub inserted_at_ms: u64,
}

/// The mathematical content of a [`CachedResponse`].
pub ghost struct ResponseSpec {
    pub status: u16,
    pub headers: Seq<(Seq<char>, Seq<char>)>,
    pub body: Seq<u8>,
    pub inserted_at_ms: u64,
}

impl View for CachedResponse {
    type V = ResponseSpec;

    open spec fn view(&self) -> ResponseSpec {
        ResponseSpec {
            status: self.status,
            headers: Seq::new(
                self.headers@.len(),
                |i: int| (self.headers@[i].0@, self.headers@[i].1@),
            ),
            body: self.body@,
            inserted_at_ms: self.inserted_at_ms,
        }
    }
}

/// One entry of the cache, as the contracts see it.
pub ghost struct EntrySpec {
    pub key: Seq<char>,
    pub response: ResponseSpec,
    pub ttl_ms: u64,
}

/// An entry is fresh while `now < inserted_at + ttl`.
pub open spec fn fresh(entry: EntrySpec, now_ms: u64) -> bool {
    now_ms < entry.response.inserted_at_ms + entry.ttl_ms
}

/// Whether some entry has the key `key`.
pub open spec fn holds(entries: Seq<EntrySpec>, key: Seq<char>) -> bool {
    exists|i: int| 0 <= i < entries.len() && (#[trigger] entries[i]).key == key
}

/// The position of an entry with the key `key`.
pub open spec fn position_of(entries: Seq<EntrySpec>, key: Seq<char>) -> int {
    choose|i: int| 0 <= i < entries.len() && (#[trigger] entries[i]).key == key
}

/// No two entries share a key.
pub open spec fn distinct_keys(entries: Seq<EntrySpec>) -> bool {
    forall|i: int, j: int|
        0 <= i < entries.len() && 0 <= j < entries.len() && i != j ==> (#[trigger] entries[i]).key
            != (#[trigger] entries[j]).key
}

/// The entries without the one under `key`.
pub open spec fn without(entries: Seq<EntrySpec>, key: Seq<char>) -> Seq<EntrySpec> {
    if holds(entries, key) {
        entries.remove(position_of(entries, key))
    } else {
        entries
    }
}

/// The entries that are fresh at `now_ms`, in their order.
pub open spec fn fresh_entries(entries: Seq<EntrySpec>, now_ms: u64) -> Seq<EntrySpec>
    decreases entries.len(),
{
    if entries.len() == 0 {
        entries
    } else if fresh(entries.last(), now_ms) {
        fresh_entries(entries.drop_last(), now_ms).push(entries.last())
    } else {
        fresh_entries(entries.drop_last(), now_ms)
    }
}

/// The entries that stay when room is needed for an entry inserted at
/// `now_ms` in a cache of `capacity`: all of them if there is room; else
/// the fresh ones, without the least recently used if they still fill the
/// cache.
pub open spec fn with_room(entries: Seq<EntrySpec>, capacity: usize, now_ms: u64) -> Seq<
    EntrySpec,
> {
    if entries.len() < capacity {
        entries
    } else if fresh_entries(entries, now_ms).len() < capacity {
        fresh_entries(entries, now_ms)
    } else {
        fresh_entries(entries, now_ms).drop_first()
    }
}

/// The entries after `entry` was stored in a cache of `capacity`: an older
/// entry under the same key is gone, room has been made if there was
/// none, and `entry` is the most recently used. A cache of capacity zero
/// stores nothing.
pub open spec fn stored(entries: Seq<EntrySpec>, capacity: usize, entry: EntrySpec) -> Seq<
    EntrySpec,
> {
    if capacity == 0 {
        entries
    } else {
        with_room(without(entries, entry.key), capacity, entry.response.inserted_at_ms).push(
            entry,
        )
    }
}

/// What a lookup of `key` at `now_ms` answers: the response of the entry
/// under `key` if it is fresh.
pub open spec fn answer(entries: Seq<EntrySpec>, key: Seq<char>, now_ms: u64) -> Option<
    ResponseSpec,
> {
    if holds(entries, key) && fresh(entries[position_of(entries, key)], now_ms) {
        Some(entries[position_of(entries, key)].response)
    } else {
        None
    }
}

/// The entries after a lookup of `key` at `now_ms`: a fresh entry has
/// become the most recently used, a stale one is gone.
pub open spec fn looked_up(entries: Seq<EntrySpec>, key: Seq<char>, now_ms: u64) -> Seq<EntrySpec> {
    if holds(entries, key) {
        let i = position_of(entries, key);
        if fresh(entries[i], now_ms) {
            entries.remove(i).push(entries[i])
        } else {
            entries.remove(i)
        }
    } else {
        entries
    }
}

/// The key under which a response is cached: method, path and query
/// string, separated by colons.
pub open spec fn cache_key_text(method: Seq<char>, path: Seq<char>, query: Seq<char>) -> Seq<char> {
    method + ":"@ + path + ":"@ + query
}

/// The key under which the response to a request is cached.
pub fn cache_key(method: &str, path: &str, query: &str) -> (r: String)
    ensures
        r@ == cache_key_text(method@, path@, query@),
{
    let mut out = String::new();
    out.append(method);
    out.append(":");
    out.append(path);
    out.append(":");
    out.append(query);
    assert(out@ =~= cache_key_text(method@, path@, query@));
    out
}

struct Slot {
    key: String,
    response: Arc<CachedResponse>,
    ttl_ms: u64,
}

impl View for Slot {
    type V = EntrySpec;

    closed spec fn view(&self) -> EntrySpec {
        EntrySpec { key: self.key@, response: self.response@, ttl_ms: self.ttl_ms }
    }
}

/// The view of a vector of slots.
spec fn slots_view(slots: Seq<Slot>) -> Seq<EntrySpec> {
    Seq::new(slots.len(), |i: int| slots[i]@)
}

/// A bounded cache of responses, ordered from the least to the most
/// recently used.
pub struct ResponseCache {
    slots: Vec<Slot>,
    capacity: usize,
}

impl View for ResponseCache {
    type V = Seq<EntrySpec>;

    closed spec fn view(&self) -> Seq<EntrySpec> {
        slots_view(self.slots@)
    }
}

fn is_fresh(slot: &Slot, now_ms: u64) -> (r: bool)
    ensures
        r == fresh(slot@, now_ms),
{
    now_ms < slot.response.inserted_at_ms || now_ms - slot.response.inserted_at_ms < slot.ttl_ms
}

fn find_slot(slots: &Vec<Slot>, key: &str) -> (r: Option<usize>)
    ensures
        match r {
            Some(i) => i < slots@.len() && slots@[i as int]@.key == key@,
            None => !holds(slots_view(slots@), key@),
        },
{
    let mut i: usize = 0;
    while i < slots.len()
        invariant
            0 <= i <= slots@.len(),
            forall|j: int| 0 <= j < i ==> (#[trigger] slots_view(slots@)[j]).key != key@,
        decreases slots@.len() - i,
    {
        assert(slots_view(slots@)[i as int] == slots@[i as int]@);
        if str_eq(slots[i].key.as_str(), key) {
            return Some(i);
        }
        i = i + 1;
    }
    None
}

/// Where the keys are distinct, the entry under a key is at one position.
proof fn lemma_position(entries: Seq<EntrySpec>, key: Seq<char>, i: int)
    requires
        distinct_keys(entries),
        0 <= i < entries.len(),
        entries[i].key == key,
    ensures
        holds(entries, key),
        position_of(entries, key) == i,
{
}

/// Removing an entry keeps the keys distinct.
proof fn lemma_remove_distinct(entries: Seq<EntrySpec>, i: int)
    requires
        distinct_keys(entries),
        0 <= i < entries.len(),
    ensures
        distinct_keys(entries.remove(i)),
        !holds(entries.remove(i), entries[i].key),
{
    let r = entries.remove(i);
    assert forall|a: int, b: int| 0 <= a < r.len() && 0 <= b < r.len() && a != b implies (
    #[trigger] r[a]).key != (#[trigger] r[b]).key by {
        let a0 = if a < i {
            a
        } else {
            a + 1
        };
        let b0 = if b < i {
            b
        } else {
            b + 1
        };
        assert(r[a] == entries[a0] && r[b] == entries[b0]);
    }
    assert forall|a: int| 0 <= a < r.len() implies (#[trigger] r[a]).key != entries[i].key by {
        let a0 = if a < i {
            a
        } else {
            a + 1
        };
        assert(r[a] == entries[a0]);
    }
}

/// Appending an entry under a key that is not held keeps the keys distinct.
proof fn lemma_push_distinct(entries: Seq<EntrySpec>, entry: EntrySpec)
    requires
        distinct_keys(entries),
        !holds(entries, entry.key),
    ensures
        distinct_keys(entries.push(entry)),
{
    let r = entries.push(entry);
    assert forall|a: int, b: int| 0 <= a < r.len() && 0 <= b < r.len() && a != b implies (
    #[trigger] r[a]).key != (#[trigger] r[b]).key by {
        if a < entries.len() {
            assert(r[a] == entries[a]);
        }
        if b < entries.len() {
            assert(r[b] == entries[b]);
        }
    }
}

/// Dropping the first entry keeps the keys distinct and adds no key.
proof fn lemma_drop_first_distinct(entries: Seq<EntrySpec>, key: Seq<char>)
    requires
        distinct_keys(entries),
        entries.len() > 0,
        !holds(entries, key),
    ensures
        distinct_keys(entries.drop_first()),
        !holds(entries.drop_first(), key),
{
    let r = entries.drop_first();
    assert forall|a: int, b: int| 0 <= a < r.len() && 0 <= b < r.len() && a != b implies (
    #[trigger] r[a]).key != (#[trigger] r[b]).key by {
        assert(r[a] == entries[a + 1] && r[b] == entries[b + 1]);
    }
    assert forall|a: int| 0 <= a < r.len() implies (#[trigger] r[a]).key != key by {
        assert(r[a] == entries[a + 1]);
    }
}

impl ResponseCache {
    /// The keys are distinct and the entries are no more than the capacity.
    #[verifier::type_invariant]
    spec fn well_formed(&self) -> bool {
        &&& distinct_keys(slots_view(self.slots@))
        &&& self.slots@.len() <= self.capacity
    }

    /// The most entries the cache holds.
    pub closed spec fn capacity(&self) -> usize {
        self.capacity
    }

    /// The keys are distinct and the entries are no more than the
    /// capacity. This holds of every cache.
    pub open spec fn within_bounds(&self) -> bool {
        distinct_keys(self@) && self@.len() <= self.capacity()
    }

    /// An empty cache that holds up to `capacity` entries.
    pub fn new(capacity: usize) -> (r: ResponseCache)
        ensures
            r@ == Seq::<EntrySpec>::empty(),
            r.capacity() == capacity,
            r.within_bounds(),
    {
        let r = ResponseCache { slots: Vec::new(), capacity };
        assert(r@ =~= Seq::<EntrySpec>::empty());
        r
    }

    /// The most entries the cache holds.
    pub fn max_entries(&self) -> (r: usize)
        ensures
            r == self.capacity(),
    {
        self.capacity
    }

    /// The number of entries, stale ones included.
    pub fn len(&self) -> (r: usize)
        ensures
            r == self@.len(),
            self.within_bounds(),
    {
        proof {
            use_type_invariant(self);
        }
        self.slots.len()
    }

    /// Looks `key` up at `now_ms`. A fresh entry is returned and becomes
    /// the most recently used; a stale entry is dropped.
    pub fn get(&mut self, key: &str, now_ms: u64) -> (r: Option<Arc<CachedResponse>>)
        ensures
            match r {
                Some(response) => answer(old(self)@, key@, now_ms) == Some(response@),
                None => answer(old(self)@, key@, now_ms) is None,
            },
            final(self)@ == looked_up(old(self)@, key@, now_ms),
            final(self).capacity() == old(self).capacity(),
            final(self).within_bounds(),
    {
        proof {
            use_type_invariant(&*self);
        }
        let ghost before = self@;
        let mut slots: Vec<Slot> = Vec::new();
        core::mem::swap(&mut slots, &mut self.slots);
        assert(slots_view(slots@) == before);
        let found = find_slot(&slots, key);
        let r = match found {
            None => None,
            Some(i) => {
                proof {
                    assert(before[i as int] == slots@[i as int]@);
                    lemma_position(before, key@, i as int);
                    lemma_remove_distinct(before, i as int);
                }
                let slot = slots.remove(i);
                assert(slots_view(slots@) =~= before.remove(i as int));
                if is_fresh(&slot, now_ms) {
                    let response = share(&slot.response);
                    proof {
                        lemma_push_distinct(before.remove(i as int), slot@);
                    }
                    slots.push(slot);
                    assert(slots_view(slots@) =~= before.remove(i as int).push(before[i as int]));
                    Some(response)
                } else {
                    None
                }
            },
        };
        self.slots = slots;
        r
    }

    /// Stores `response` under `key` for `ttl_ms` milliseconds from its
    /// insertion time, as the most recently used entry. What was stored
    /// under `key` before is replaced; if the cache is full, the least
    /// recently used entry is evicted.
    pub fn put(&mut self, key: &str, response: CachedResponse, ttl_ms: u64)
        ensures
            final(self)@ == stored(
                old(self)@,
                old(self).capacity(),
                (EntrySpec { key: key@, response: response@, ttl_ms }),
            ),
            final(self).capacity() == old(self).capacity(),
            final(self).within_bounds(),
    {
        proof {
            use_type_invariant(&*self);
        }
        if self.capacity == 0 {
            return;
        }
        let ghost before = self@;
        let ghost entry = EntrySpec { key: key@, response: response@, ttl_ms };
        let mut slots: Vec<Slot> = Vec::new();
        core::mem::swap(&mut slots, &mut self.slots);
        assert(slots_view(slots@) == before);
        match find_slot(&slots, key) {
            None => {},
            Some(i) => {
                proof {
                    assert(before[i as int] == slots@[i as int]@);
                    lemma_position(before, key@, i as int);
                    lemma_remove_distinct(before, i as int);
                }
                let _ = slots.remove(i);
                assert(slots_view(slots@) =~= before.remove(i as int));
            },
        }
        let ghost rest = without(before, key@);
        assert(slots_view(slots@) == rest);
        assert(distinct_keys(rest) && !holds(rest, key@));
        if slots.len() >= self.capacity {
            proof {
                lemma_fresh_entries_distinct(rest, response.inserted_at_ms);
            }
            slots = retain_fresh(slots, response.inserted_at_ms);
            if slots.len() >= self.capacity {
                proof {
                    lemma_drop_first_distinct(slots_view(slots@), key@);
                }
                let ghost live = slots_view(slots@);
                let _ = slots.remove(0);
                assert(slots_view(slots@) =~= live.drop_first());
            }
        }
        let ghost room = slots_view(slots@);
        assert(room == with_room(rest, self.capacity, response.inserted_at_ms));
        proof {
            lemma_push_distinct(room, entry);
        }
        slots.push(Slot { key: crate::text::owned(key), response: Arc::new(response), ttl_ms });
        assert(slots_view(slots@) =~= room.push(entry));
        self.slots = slots;
    }

    /// Drops every entry that is stale at `now_ms` and says how many went.
    pub fn purge_expired(&mut self, now_ms: u64) -> (dropped: usize)
        ensures
            final(self)@ == fresh_entries(old(self)@, now_ms),
            dropped == old(self)@.len() - final(self)@.len(),
            final(self).capacity() == old(self).capacity(),
            final(self).within_bounds(),
    {
        proof {
            use_type_invariant(&*self);
            lemma_fresh_entries_distinct(self@, now_ms);
        }
        let mut slots: Vec<Slot> = Vec::new();
        core::mem::swap(&mut slots, &mut self.slots);
        let total = slots.len();
        let kept = retain_fresh(slots, now_ms);
        let dropped = total - kept.len();
        self.slots = kept;
        dropped
    }
}

/// The slots that are fresh at `now_ms`, in their order.
fn retain_fresh(slots: Vec<Slot>, now_ms: u64) -> (kept: Vec<Slot>)
    ensures
        slots_view(kept@) == fresh_entries(slots_view(slots@), now_ms),
        kept@.len() <= slots@.len(),
{
    let ghost before = slots_view(slots@);
    let total = slots.len();
    let mut slots = slots;
    // Slots can only be taken from the back of a vector, so they are
    // turned over first and then taken in the order they had.
    let mut turned: Vec<Slot> = Vec::new();
    while slots.len() > 0
        invariant
            slots_view(slots@) + slots_view(turned@).reverse() == before,
            slots@.len() + turned@.len() == total,
        decreases slots@.len(),
    {
        let ghost s0 = slots_view(slots@);
        let ghost t0 = slots_view(turned@);
        let slot = slots.pop().unwrap();
        turned.push(slot);
        assert(slots_view(slots@) =~= s0.drop_last());
        assert(slots_view(turned@) =~= t0.push(s0.last()));
        assert(slots_view(slots@) + slots_view(turned@).reverse() =~= s0 + t0.reverse());
    }
    assert(slots_view(turned@).reverse() =~= before);
    let ghost rev = slots_view(turned@);
    let mut kept: Vec<Slot> = Vec::new();
    assert(fresh_entries(before.take(0), now_ms) =~= Seq::<EntrySpec>::empty());
    while turned.len() > 0
        invariant
            rev.reverse() == before,
            total == before.len(),
            turned@.len() <= total,
            slots_view(turned@) == rev.take(turned@.len() as int),
            slots_view(kept@) == fresh_entries(before.take(total - turned@.len()), now_ms),
            kept@.len() <= total - turned@.len(),
        decreases turned@.len(),
    {
        let ghost n = turned@.len() as int;
        let ghost k0 = slots_view(kept@);
        let ghost t0 = turned@;
        let slot = turned.pop().unwrap();
        proof {
            assert(slots_view(t0)[n - 1] == t0[n - 1]@);
            assert(rev.take(n)[n - 1] == rev[n - 1]);
            assert(slot@ == rev[n - 1]);
            assert(rev[n - 1] == before[total - n]);
            assert(slots_view(turned@) =~= rev.take(n - 1));
            let upto = before.take(total - n + 1);
            assert(upto.drop_last() =~= before.take(total - n));
            assert(upto.last() == slot@);
        }
        if is_fresh(&slot, now_ms) {
            kept.push(slot);
            assert(slots_view(kept@) =~= k0.push(slot@));
        }
    }
    assert(before.take(total as int) =~= before);
    kept
}

/// The fresh entries of a cache are no more than its entries, and their
/// keys are distinct where the cache's are.
proof fn lemma_fresh_entries_distinct(entries: Seq<EntrySpec>, now_ms: u64)
    requires
        distinct_keys(entries),
    ensures
        distinct_keys(fresh_entries(entries, now_ms)),
        fresh_entries(entries, now_ms).len() <= entries.len(),
        forall|k: Seq<char>|
            holds(fresh_entries(entries, now_ms), k) ==> #[trigger] holds(entries, k),
    decreases entries.len(),
{
    if entries.len() > 0 {
        let init = entries.drop_last();
        assert forall|a: int, b: int| 0 <= a < init.len() && 0 <= b < init.len() && a != b implies (
        #[trigger] init[a]).key != (#[trigger] init[b]).key by {
            assert(init[a] == entries[a] && init[b] == entries[b]);
        }
        lemma_fresh_entries_distinct(init, now_ms);
        let f = fresh_entries(init, now_ms);
        assert forall|k: Seq<char>| holds(f, k) implies #[trigger] holds(entries, k) by {
            assert(holds(init, k));
            let i = position_of(init, k);
            assert(init[i] == entries[i]);
        }
        if fresh(entries.last(), now_ms) {
            if holds(f, entries.last().key) {
                assert(holds(init, entries.last().key));
                let i = position_of(init, entries.last().key);
                assert(init[i] == entries[i]);
                assert(entries[i].key == entries[entries.len() - 1].key);
                assert(false);
            }
            lemma_push_distinct(f, entries.last());
            let g = f.push(entries.last());
            assert forall|k: Seq<char>| holds(g, k) implies #[trigger] holds(entries, k) by {
                let i = position_of(g, k);
                if i < f.len() {
                    assert(g[i] == f[i]);
                    assert(holds(f, k));
                } else {
                    assert(entries[entries.len() - 1].key == k);
                }
            }
        }
    }
}

/// The last of the entries that is fresh is the last of the fresh entries.
proof fn lemma_fresh_last_stays_last(entries: Seq<EntrySpec>, now_ms: u64)
    requires
        entries.len() > 0,
        fresh(entries.last(), now_ms),
    ensures
        fresh_entries(entries, now_ms).len() > 0,
        fresh_entries(entries, now_ms).last() == entries.last(),
{
}

/// Storing keeps the cache within its capacity and its keys distinct.
pub proof fn lemma_stored_is_bounded(entries: Seq<EntrySpec>, capacity: usize, entry: EntrySpec)
    requires
        distinct_keys(entries),
        entries.len() <= capacity,
    ensures
        distinct_keys(stored(entries, capacity, entry)),
        stored(entries, capacity, entry).len() <= capacity,
        capacity > 0 ==> stored(entries, capacity, entry).last() == entry,
        capacity > 0 ==> !holds(stored(entries, capacity, entry).drop_last(), entry.key),
{
    if capacity > 0 {
        let now = entry.response.inserted_at_ms;
        let rest = without(entries, entry.key);
        if holds(entries, entry.key) {
            lemma_remove_distinct(entries, position_of(entries, entry.key));
        }
        lemma_fresh_entries_distinct(rest, now);
        let room = with_room(rest, capacity, now);
        if rest.len() >= capacity && fresh_entries(rest, now).len() >= capacity {
            lemma_drop_first_distinct(fresh_entries(rest, now), entry.key);
        }
        lemma_push_distinct(room, entry);
        assert(room.push(entry).drop_last() =~= room);
    }
}

/// A response stored under a key answers the lookups of that key exactly
/// while `now < inserted_at + ttl`, and what it answers is the response
/// that was stored.
pub proof fn lemma_stored_answers_while_fresh(
    entries: Seq<EntrySpec>,
    capacity: usize,
    entry: EntrySpec,
    now_ms: u64,
)
    requires
        distinct_keys(entries),
        entries.len() <= capacity,
        capacity > 0,
    ensures
        now_ms < entry.response.inserted_at_ms + entry.ttl_ms ==> answer(
            stored(entries, capacity, entry),
            entry.key,
            now_ms,
        ) == Some(entry.response),
        now_ms >= entry.response.inserted_at_ms + entry.ttl_ms ==> answer(
            stored(entries, capacity, entry),
            entry.key,
            now_ms,
        ) is None,
{
    lemma_stored_is_bounded(entries, capacity, entry);
    let after = stored(entries, capacity, entry);
    assert(after[after.len() - 1] == entry);
    lemma_position(after, entry.key, after.len() - 1);
}

/// A stale entry is gone after the lookup that finds it, and a lookup
/// never answers from it.
pub proof fn lemma_stale_entry_is_dropped(entries: Seq<EntrySpec>, key: Seq<char>, now_ms: u64)
    requires
        distinct_keys(entries),
        holds(entries, key),
        !fresh(entries[position_of(entries, key)], now_ms),
    ensures
        answer(entries, key, now_ms) is None,
        !holds(looked_up(entries, key, now_ms), key),
{
    lemma_remove_distinct(entries, position_of(entries, key));
}

/// Room is made at the expense of stale entries first: while the fresh
/// entries leave room for one more, storing a new key evicts no fresh
/// entry.
pub proof fn lemma_stale_entries_go_first(
    entries: Seq<EntrySpec>,
    capacity: usize,
    entry: EntrySpec,
    key: Seq<char>,
)
    requires
        distinct_keys(entries),
        entries.len() <= capacity,
        !holds(entries, entry.key),
        fresh_entries(entries, entry.response.inserted_at_ms).len() < capacity,
        holds(entries, key),
        fresh(entries[position_of(entries, key)], entry.response.inserted_at_ms),
    ensures
        holds(stored(entries, capacity, entry), key),
{
    let now = entry.response.inserted_at_ms;
    let i = position_of(entries, key);
    lemma_fresh_entries_hold(entries, now, i);
    let room = with_room(entries, capacity, now);
    assert(holds(room, key));
    let j = position_of(room, key);
    assert(room.push(entry)[j] == room[j]);
}

/// An entry that is fresh is among the fresh entries.
proof fn lemma_fresh_entries_hold(entries: Seq<EntrySpec>, now_ms: u64, i: int)
    requires
        0 <= i < entries.len(),
        fresh(entries[i], now_ms),
    ensures
        holds(fresh_entries(entries, now_ms), entries[i].key),
    decreases entries.len(),
{
    let f = fresh_entries(entries, now_ms);
    if i == entries.len() - 1 {
        assert(f[f.len() - 1] == entries[i]);
    } else {
        let init = entries.drop_last();
        assert(init[i] == entries[i]);
        lemma_fresh_entries_hold(init, now_ms, i);
        let g = fresh_entries(init, now_ms);
        let j = position_of(g, entries[i].key);
        if fresh(entries.last(), now_ms) {
            assert(f[j] == g[j]);
        }
    }
}

/// An entry that a lookup has just answered from is the most recently
/// used: as long as it is fresh, storing one new key in a cache that holds
/// two or more entries does not evict it.
pub proof fn lemma_lookup_protects_from_eviction(
    entries: Seq<EntrySpec>,
    capacity: usize,
    key: Seq<char>,
    now_ms: u64,
    entry: EntrySpec,
)
    requires
        distinct_keys(entries),
        entries.len() <= capacity,
        capacity >= 2,
        answer(entries, key, now_ms) is Some,
        fresh(entries[position_of(entries, key)], entry.response.inserted_at_ms),
        entry.key != key,
    ensures
        holds(stored(looked_up(entries, key, now_ms), capacity, entry), key),
{
    let later = entry.response.inserted_at_ms;
    let i = position_of(entries, key);
    let used = looked_up(entries, key, now_ms);
    lemma_remove_distinct(entries, i);
    lemma_push_distinct(entries.remove(i), entries[i]);
    assert(used.last() == entries[i]);
    let rest = without(used, entry.key);
    if holds(used, entry.key) {
        let j = position_of(used, entry.key);
        assert(j != used.len() - 1);
        assert(rest[rest.len() - 1] == used[used.len() - 1]);
    }
    assert(rest.last() == entries[i]);
    lemma_fresh_last_stays_last(rest, later);
    let room = with_room(rest, capacity, later);
    let live = fresh_entries(rest, later);
    if rest.len() >= capacity && live.len() >= capacity {
        assert(live.drop_first()[live.len() - 2] == live[live.len() - 1]);
    }
    assert(room[room.len() - 1].key == key);
    let after = room.push(entry);
    assert(after[room.len() - 1] == room[room.len() - 1]);
}

} // verus!
