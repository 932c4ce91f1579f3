use vstd::prelude::*;

use crate::errors::AppError;
use crate::keyed::{
    keyed, keys_unique, lemma_keyed_dom, lemma_keyed_filter, lemma_keyed_push, lemma_keyed_remove,
    lemma_keyed_update, lemma_keyed_value, lemma_unique_push,
};
use crate::text::owned;

verus! {

broadcast use vstd::seq_lib::group_seq_properties;

/// A cached value and its bookkeeping. Times are in milliseconds.
#[derive(Debug, Clone)]
pub struct CachedItem<V> {
    pub value: V,
    pub created_at: u64,
    pub expires_at: Option<u64>,
    pub access_count: usize,
    pub last_accessed: u64,
}

impl<V> CachedItem<V> {
    /// An item stored at `now`, to expire `ttl` milliseconds later if given.
    pub fn new(value: V, ttl: Option<u64>, now: u64) -> (r: CachedItem<V>)
        ensures
            r == fresh_item(value, now, ttl),
    {
        let expires_at = match ttl {
            Some(d) => Some(now.saturating_add(d)),
            None => None,
        };
        CachedItem { value, created_at: now, expires_at, access_count: 0, last_accessed: now }
    }

    /// Whether the item has expired at `now`.
    pub fn is_expired(&self, now: u64) -> (r: bool)
        ensures
            r == item_expired(*self, now),
    {
        match self.expires_at {
            Some(t) => now > t,
            None => false,
        }
    }

    /// Counts a read at `now`.
    pub fn touch(&mut self, now: u64)
        ensures
            *final(self) == touched(*old(self), now),
    {
        self.last_accessed = now;
        self.access_count = self.access_count.saturating_add(1);
    }
}

/// A cached item under its key.
#[derive(Debug)]
struct CacheSlot<V> {
    key: String,
    item: CachedItem<V>,
}

/// The value of a slot.
pub struct SlotView<V> {
    pub key: Seq<char>,
    pub item: CachedItem<V>,
}

pub open spec fn slot_key<V>() -> spec_fn(SlotView<V>) -> Seq<char> {
    |s: SlotView<V>| s.key
}

/// An item is logically absent once `now` is past its expiry, if it has one.
pub open spec fn item_expired<V>(item: CachedItem<V>, now: u64) -> bool {
    item.expires_at is Some && now > item.expires_at->Some_0
}

pub open spec fn live_slot<V>(now: u64) -> spec_fn(SlotView<V>) -> bool {
    |s: SlotView<V>| !item_expired(s.item, now)
}

/// The expiry of an item inserted at `now` with this time to live.
pub open spec fn expiry_from(now: u64, ttl: Option<u64>) -> Option<u64> {
    match ttl {
        Some(d) => Some(if now + d > u64::MAX { u64::MAX } else { (now + d) as u64 }),
        None => None,
    }
}

/// The item that an insertion at `now` stores.
pub open spec fn fresh_item<V>(value: V, now: u64, ttl: Option<u64>) -> CachedItem<V> {
    CachedItem {
        value,
        created_at: now,
        expires_at: expiry_from(now, ttl),
        access_count: 0,
        last_accessed: now,
    }
}

/// `item` after a read at `now`.
pub open spec fn touched<V>(item: CachedItem<V>, now: u64) -> CachedItem<V> {
    CachedItem {
        last_accessed: now,
        access_count: if item.access_count == usize::MAX {
            usize::MAX
        } else {
            (item.access_count + 1) as usize
        },
        ..item
    }
}

/// `k` holds an item that was read least recently of all.
pub open spec fn least_recent<V>(m: Map<Seq<char>, CachedItem<V>>, k: Seq<char>) -> bool {
    m.contains_key(k) && forall|o: Seq<char>|
        #[trigger] m.contains_key(o) ==> m[k].last_accessed <= m[o].last_accessed
}

/// Counts over a cache's items at one moment.
#[derive(Debug, Clone, Copy, PartialEq, Eq, Structural)]
pub struct CacheStats {
    pub total_items: usize,
    pub active_items: usize,
    pub expired_items: usize,
    /// Reads over all items, saturating at `usize::MAX`.
    pub total_accesses: usize,
    pub max_size: Option<usize>,
    pub default_ttl_ms: Option<u64>,
}

pub open spec fn expired_count<V>(s: Seq<SlotView<V>>, now: u64) -> nat {
    s.filter(|x: SlotView<V>| item_expired(x.item, now)).len()
}

pub open spec fn access_total<V>(s: Seq<SlotView<V>>) -> nat
    decreases s.len(),
{
    if s.len() == 0 {
        0
    } else {
        access_total(s.drop_last()) + (s.last().item.access_count as nat)
    }
}

/// A key-value cache whose items may expire and which, when bounded, makes room by
/// dropping the item read least recently. Times are in milliseconds and are given by
/// the caller.
pub struct CacheManager<V> {
    slots: Vec<CacheSlot<V>>,
    default_ttl: Option<u64>,
    max_size: Option<usize>,
}

impl<V> CacheManager<V> {
    pub closed spec fn slot_list(&self) -> Seq<SlotView<V>> {
        self.slots@.map_values(|s: CacheSlot<V>| SlotView { key: s.key@, item: s.item })
    }

    /// The stored items by key, expired ones included until they are swept.
    pub open spec fn entries(&self) -> Map<Seq<char>, CachedItem<V>> {
        keyed(self.slot_list(), slot_key()).map_values(|s: SlotView<V>| s.item)
    }

    pub closed spec fn ttl(&self) -> Option<u64> {
        self.default_ttl
    }

    pub closed spec fn capacity(&self) -> Option<usize> {
        self.max_size
    }

    pub open spec fn wf(&self) -> bool {
        keys_unique(self.slot_list(), slot_key())
    }

    /// The number of stored items.
    pub open spec fn size(&self) -> nat {
        self.slot_list().len()
    }

    pub fn new() -> (r: Self)
        ensures
            r.wf(),
            r.size() == 0,
            r.ttl() is None,
            r.capacity() is None,
    {
        CacheManager { slots: Vec::new(), default_ttl: None, max_size: None }
    }

    /// A cache whose items live `ttl_ms` milliseconds unless told otherwise.
    pub fn with_ttl(ttl_ms: u64) -> (r: Self)
        ensures
            r.wf(),
            r.size() == 0,
            r.ttl() == Some(ttl_ms),
            r.capacity() is None,
    {
        CacheManager { slots: Vec::new(), default_ttl: Some(ttl_ms), max_size: None }
    }

    pub fn with_max_size(max_size: usize) -> (r: Self)
        ensures
            r.wf(),
            r.size() == 0,
            r.ttl() is None,
            r.capacity() == Some(max_size),
    {
        CacheManager { slots: Vec::new(), default_ttl: None, max_size: Some(max_size) }
    }

    pub fn with_ttl_and_max_size(ttl_ms: u64, max_size: usize) -> (r: Self)
        ensures
            r.wf(),
            r.size() == 0,
            r.ttl() == Some(ttl_ms),
            r.capacity() == Some(max_size),
    {
        CacheManager { slots: Vec::new(), default_ttl: Some(ttl_ms), max_size: Some(max_size) }
    }

    fn find(&self, key: &str) -> (r: Option<usize>)
        requires
            self.wf(),
        ensures
            r is None <==> !self.entries().contains_key(key@),
            r is Some ==> r->Some_0 < self.size() && self.slot_list()[r->Some_0 as int].key == key@
                && self.entries()[key@] == self.slot_list()[r->Some_0 as int].item,
    {
        let wanted = owned(key);
        let mut i: usize = 0;
        while i < self.slots.len()
            invariant
                self.wf(),
                i <= self.slots@.len(),
                wanted@ == key@,
                forall|j: int| 0 <= j < i ==> self.slot_list()[j].key != key@,
            decreases self.slots@.len() - i,
        {
            if self.slots[i].key == wanted {
                proof {
                    lemma_keyed_dom(self.slot_list(), slot_key(), key@);
                    lemma_keyed_value(self.slot_list(), slot_key(), i as int);
                    assert(self.slot_list()[i as int].key == key@);
                }
                return Some(i);
            }
            i = i + 1;
        }
        proof {
            lemma_keyed_dom(self.slot_list(), slot_key(), key@);
        }
        None
    }

    /// The index of an item read least recently; the first such in storage order.
    fn least_recently_used(&self) -> (r: usize)
        requires
            self.wf(),
            self.size() > 0,
        ensures
            r < self.size(),
            least_recent(self.entries(), self.slot_list()[r as int].key),
    {
        let mut best: usize = 0;
        let mut i: usize = 1;
        while i < self.slots.len()
            invariant
                1 <= i <= self.slots@.len(),
                best < i,
                forall|j: int|
                    0 <= j < i ==> self.slot_list()[best as int].item.last_accessed
                        <= #[trigger] self.slot_list()[j].item.last_accessed,
            decreases self.slots@.len() - i,
        {
            if self.slots[i].item.last_accessed < self.slots[best].item.last_accessed {
                best = i;
            }
            i = i + 1;
        }
        proof {
            let m = self.entries();
            lemma_keyed_value(self.slot_list(), slot_key(), best as int);
            assert forall|o: Seq<char>| #[trigger] m.contains_key(o) implies m[self.slot_list()[best as int].key].last_accessed
                <= m[o].last_accessed by {
                lemma_keyed_dom(self.slot_list(), slot_key(), o);
                let j = choose|j: int| 0 <= j < self.slot_list().len() && slot_key()(self.slot_list()[j]) == o;
                lemma_keyed_value(self.slot_list(), slot_key(), j);
            }
        }
        best
    }

    fn remove_at(&mut self, i: usize) -> (r: CacheSlot<V>)
        requires
            old(self).wf(),
            i < old(self).size(),
        ensures
            final(self).wf(),
            r.key@ == old(self).slot_list()[i as int].key,
            r.item == old(self).slot_list()[i as int].item,
            final(self).slot_list() == old(self).slot_list().remove(i as int),
            final(self).entries() == old(self).entries().remove(r.key@),
            final(self).ttl() == old(self).ttl(),
            final(self).capacity() == old(self).capacity(),
    {
        let ghost before = self.slot_list();
        let r = self.slots.remove(i);
        proof {
            assert(self.slot_list() =~= before.remove(i as int));
            lemma_keyed_remove(before, slot_key(), i as int);
            assert(self.entries() =~= keyed(before, slot_key()).map_values(|s: SlotView<V>| s.item).remove(r.key@));
        }
        r
    }

    /// Inserts under the default time to live; see `insert_with_ttl`.
    pub fn insert(&mut self, key: String, value: V, now: u64) -> (r: Result<(), AppError>)
        requires
            old(self).wf(),
        ensures
            r is Ok,
            final(self).wf(),
            final(self).ttl() == old(self).ttl(),
            final(self).capacity() == old(self).capacity(),
            final(self).entries().contains_key(key@),
            final(self).entries()[key@] == fresh_item(value, now, old(self).ttl()),
            ({
                let evict = old(self).capacity() is Some && old(self).size() >= old(self).capacity()->Some_0 && !old(self).entries().contains_key(key@) && old(self).size() > 0;
                &&& evict ==> exists|lk: Seq<char>|
                    least_recent(old(self).entries(), lk) && final(self).entries() == old(self).entries().remove(lk).insert(key@, fresh_item(value, now, old(self).ttl()))
                &&& !evict ==> final(self).entries() == old(self).entries().insert(
                    key@,
                    fresh_item(value, now, old(self).ttl()),
                )
            }),
    {
        let ttl = self.default_ttl;
        self.insert_with_ttl(key, value, ttl, now)
    }

    /// Inserts or overwrites the item under `key`, to expire `ttl` milliseconds after
    /// `now` if given. When the cache is bounded, full and the key is new, the item read
    /// least recently is dropped first.
    pub fn insert_with_ttl(&mut self, key: String, value: V, ttl: Option<u64>, now: u64) -> (r:
        Result<(), AppError>)
        requires
            old(self).wf(),
        ensures
            r is Ok,
            final(self).wf(),
            final(self).ttl() == old(self).ttl(),
            final(self).capacity() == old(self).capacity(),
            final(self).entries().contains_key(key@),
            final(self).entries()[key@] == fresh_item(value, now, ttl),
            ({
                let evict = old(self).capacity() is Some && old(self).size() >= old(self).capacity()->Some_0 && !old(self).entries().contains_key(key@) && old(self).size() > 0;
                &&& evict ==> exists|lk: Seq<char>|
                    least_recent(old(self).entries(), lk) && final(self).entries() == old(self).entries().remove(lk).insert(key@, fresh_item(value, now, ttl))
                &&& !evict ==> final(self).entries() == old(self).entries().insert(
                    key@,
                    fresh_item(value, now, ttl),
                )
            }),
    {
        let existing = self.find(key.as_str());
        if let Some(cap) = self.max_size {
            if self.slots.len() >= cap && existing.is_none() && self.slots.len() > 0 {
                let lru = self.least_recently_used();
                let ghost lk = self.slot_list()[lru as int].key;
                let ghost before = self.entries();
                self.remove_at(lru);
                proof {
                    assert(least_recent(before, lk));
                    assert(!self.entries().contains_key(key@));
                }
            }
        }
        let expires_at = match ttl {
            Some(d) => Some(now.saturating_add(d)),
            None => None,
        };
        let item = CachedItem { value, created_at: now, expires_at, access_count: 0, last_accessed: now };
        let ghost before = self.slot_list();
        let ghost entries_before = self.entries();
        match self.find(key.as_str()) {
            Some(i) => {
                let slot = CacheSlot { key, item };
                self.slots.set(i, slot);
                proof {
                    let sv = SlotView { key: slot.key@, item: slot.item };
                    assert(self.slot_list() =~= before.update(i as int, sv));
                    lemma_keyed_update(before, slot_key(), i as int, sv);
                    assert(self.entries() =~= entries_before.insert(sv.key, sv.item));
                }
            },
            None => {
                let slot = CacheSlot { key, item };
                self.slots.push(slot);
                proof {
                    let sv = SlotView { key: slot.key@, item: slot.item };
                    assert(self.slot_list() =~= before.push(sv));
                    lemma_unique_push(before, slot_key(), sv);
                    lemma_keyed_push(before, slot_key(), sv);
                    assert(self.entries() =~= entries_before.insert(sv.key, sv.item));
                }
            },
        }
        Ok(())
    }

    /// Takes the item under `key` out at `now`. An expired item is dropped as well but
    /// reads as absent.
    pub fn remove(&mut self, key: &str, now: u64) -> (r: Option<V>)
        requires
            old(self).wf(),
        ensures
            final(self).wf(),
            final(self).ttl() == old(self).ttl(),
            final(self).capacity() == old(self).capacity(),
            final(self).entries() == old(self).entries().remove(key@),
            r is Some <==> old(self).entries().contains_key(key@) && !item_expired(
                old(self).entries()[key@],
                now,
            ),
            r is Some ==> r->Some_0 == old(self).entries()[key@].value,
    {
        match self.find(key) {
            None => {
                proof {
                    assert(self.entries() =~= self.entries().remove(key@));
                }
                None
            },
            Some(i) => {
                let slot = self.remove_at(i);
                let expired = match slot.item.expires_at {
                    Some(t) => now > t,
                    None => false,
                };
                if expired {
                    None
                } else {
                    Some(slot.item.value)
                }
            },
        }
    }

    /// Drops every item.
    pub fn clear(&mut self)
        ensures
            final(self).wf(),
            final(self).size() == 0,
            final(self).entries() == Map::<Seq<char>, CachedItem<V>>::empty(),
            final(self).ttl() == old(self).ttl(),
            final(self).capacity() == old(self).capacity(),
    {
        self.slots = Vec::new();
        proof {
            assert(self.entries() =~= Map::<Seq<char>, CachedItem<V>>::empty());
        }
    }

    /// Whether a live item is stored under `key`; reading it this way is not counted.
    pub fn contains_key(&self, key: &str, now: u64) -> (r: bool)
        requires
            self.wf(),
        ensures
            r <==> self.entries().contains_key(key@) && !item_expired(self.entries()[key@], now),
    {
        match self.find(key) {
            None => false,
            Some(i) => match self.slots[i].item.expires_at {
                Some(t) => !(now > t),
                None => true,
            },
        }
    }

    /// The number of stored items, expired ones included until they are swept.
    pub fn len(&self) -> (r: usize)
        ensures
            r == self.size(),
    {
        self.slots.len()
    }

    pub fn is_empty(&self) -> (r: bool)
        ensures
            r <==> self.size() == 0,
    {
        self.slots.len() == 0
    }

    /// Drops every item that has expired at `now` and returns how many there were.
    pub fn cleanup_expired(&mut self, now: u64) -> (r: usize)
        requires
            old(self).wf(),
        ensures
            final(self).wf(),
            final(self).ttl() == old(self).ttl(),
            final(self).capacity() == old(self).capacity(),
            final(self).slot_list() == old(self).slot_list().filter(live_slot(now)),
            forall|k: Seq<char>|
                #[trigger] final(self).entries().contains_key(k) <==> old(self).entries().contains_key(k)
                    && !item_expired(old(self).entries()[k], now),
            forall|k: Seq<char>|
                #[trigger] final(self).entries().contains_key(k) ==> final(self).entries()[k] == old(self).entries()[k],
            r == old(self).size() - final(self).size(),
            r == expired_count(old(self).slot_list(), now),
    {
        let ghost orig = self.slot_list();
        let mut rest: Vec<CacheSlot<V>> = Vec::new();
        std::mem::swap(&mut self.slots, &mut rest);
        let ghost rv = rest@.map_values(|s: CacheSlot<V>| SlotView { key: s.key@, item: s.item });
        proof {
            assert(rv =~= orig);
        }
        let n = rest.len();
        let mut removed: usize = 0;
        let mut i: usize = 0;
        while i < n
            invariant
                n == orig.len(),
                i <= n,
                rest@.len() == n - i,
                forall|j: int| 0 <= j < n - i ==> (SlotView { key: #[trigger] rest@[j].key@, item: rest@[j].item }) == orig[i + j],
                self.default_ttl == old(self).ttl(),
                self.max_size == old(self).capacity(),
                self.slot_list() == orig.take(i as int).filter(live_slot(now)),
                removed == expired_count(orig.take(i as int), now),
                removed <= i,
            decreases n - i,
        {
            let ghost rest_before = rest@;
            let slot = rest.remove(0);
            let ghost sv = SlotView { key: slot.key@, item: slot.item };
            proof {
                assert(sv == orig[i as int]);
                assert(orig.take(i + 1) =~= orig.take(i as int).push(sv));
                orig.take(i as int).lemma_filter_push(sv, live_slot(now));
                orig.take(i as int).lemma_filter_push(sv, |x: SlotView<V>| item_expired(x.item, now));
                assert forall|j: int| 0 <= j < n - (i + 1) implies (SlotView { key: #[trigger] rest@[j].key@, item: rest@[j].item }) == orig[(i + 1) + j] by {
                    assert(rest@[j] == rest_before[j + 1]);
                }
            }
            let expired = match slot.item.expires_at {
                Some(t) => now > t,
                None => false,
            };
            if expired {
                removed = removed + 1;
            } else {
                let ghost before = self.slot_list();
                self.slots.push(slot);
                proof {
                    assert(self.slot_list() =~= before.push(sv));
                }
            }
            i = i + 1;
        }
        proof {
            assert(orig.take(n as int) =~= orig);
            lemma_keyed_filter(orig, slot_key(), live_slot(now));
            lemma_expired_split(orig, now);
        }
        removed
    }

    /// Counts over the items at `now`.
    pub fn get_stats(&self, now: u64) -> (r: CacheStats)
        ensures
            r.total_items == self.size(),
            r.expired_items == expired_count(self.slot_list(), now),
            r.active_items == self.size() - expired_count(self.slot_list(), now),
            r.total_accesses == if access_total(self.slot_list()) > usize::MAX {
                usize::MAX as nat
            } else {
                access_total(self.slot_list())
            },
            r.max_size == self.capacity(),
            r.default_ttl_ms == self.ttl(),
    {
        let ghost v = self.slot_list();
        let mut expired: usize = 0;
        let mut accesses: usize = 0;
        let mut i: usize = 0;
        while i < self.slots.len()
            invariant
                v == self.slot_list(),
                i <= v.len(),
                expired == expired_count(v.take(i as int), now),
                expired <= i,
                accesses == if access_total(v.take(i as int)) > usize::MAX {
                    usize::MAX as nat
                } else {
                    access_total(v.take(i as int))
                },
            decreases v.len() - i,
        {
            proof {
                assert(v.take(i + 1) =~= v.take(i as int).push(v[i as int]));
                assert(v.take(i + 1).drop_last() =~= v.take(i as int));
                v.take(i as int).lemma_filter_push(v[i as int], |x: SlotView<V>| item_expired(x.item, now));
            }
            let item = &self.slots[i].item;
            let is_expired = match item.expires_at {
                Some(t) => now > t,
                None => false,
            };
            if is_expired {
                expired = expired + 1;
            }
            accesses = accesses.saturating_add(item.access_count);
            i = i + 1;
        }
        proof {
            assert(v.take(i as int) =~= v);
            v.lemma_filter_len(|x: SlotView<V>| item_expired(x.item, now));
        }
        CacheStats {
            total_items: self.slots.len(),
            active_items: self.slots.len() - expired,
            expired_items: expired,
            total_accesses: accesses,
            max_size: self.max_size,
            default_ttl_ms: self.default_ttl,
        }
    }
}

impl<V: Clone> CacheManager<V> {
    /// Reads the item under `key` at `now`. An expired item is dropped and reads as
    /// absent; a live one is counted as read and a clone of its value returned.
    pub fn get(&mut self, key: &str, now: u64) -> (r: Option<V>)
        requires
            old(self).wf(),
        ensures
            final(self).wf(),
            final(self).ttl() == old(self).ttl(),
            final(self).capacity() == old(self).capacity(),
            !old(self).entries().contains_key(key@) ==> r is None && final(self).entries() == old(self).entries(),
            old(self).entries().contains_key(key@) && item_expired(old(self).entries()[key@], now)
                ==> r is None && final(self).entries() == old(self).entries().remove(key@),
            old(self).entries().contains_key(key@) && !item_expired(old(self).entries()[key@], now)
                ==> r is Some && cloned(old(self).entries()[key@].value, r->Some_0) && final(self).entries() == old(self).entries().insert(key@, touched(old(self).entries()[key@], now)),
    {
        let i = match self.find(key) {
            None => { return None; },
            Some(i) => i,
        };
        let expired = match self.slots[i].item.expires_at {
            Some(t) => now > t,
            None => false,
        };
        if expired {
            self.remove_at(i);
            return None;
        }
        let value = self.slots[i].item.value.clone();
        let ghost before = self.slot_list();
        let ghost entries_before = self.entries();
        let mut slot = self.slots.remove(i);
        slot.item.last_accessed = now;
        slot.item.access_count = slot.item.access_count.saturating_add(1);
        self.slots.insert(i, slot);
        proof {
            let sv = SlotView { key: slot.key@, item: slot.item };
            assert(self.slot_list() =~= before.update(i as int, sv));
            lemma_keyed_update(before, slot_key(), i as int, sv);
            assert(self.entries() =~= entries_before.insert(sv.key, sv.item));
        }
        Some(value)
    }
}

/// The expired items and the live ones together make up the whole.
pub proof fn lemma_expired_split<V>(s: Seq<SlotView<V>>, now: u64)
    ensures
        s.filter(live_slot(now)).len() + expired_count(s, now) == s.len(),
    decreases s.len(),
{
    if s.len() > 0 {
        let d = s.drop_last();
        lemma_expired_split(d, now);
        assert(s =~= d.push(s.last()));
        d.lemma_filter_push(s.last(), live_slot(now));
        d.lemma_filter_push(s.last(), |x: SlotView<V>| item_expired(x.item, now));
    }
}

/// Time to live: an item inserted at `t0` with time to live `ttl` is live at every
/// moment up to `t0 + ttl` and expired at every later one.
pub proof fn ttl_bounds_lifetime<V>(value: V, t0: u64, ttl: u64, t: u64)
    requires
        t0 <= t,
        t0 + ttl <= u64::MAX,
    ensures
        t - t0 <= ttl ==> !item_expired(fresh_item(value, t0, Some(ttl)), t),
        t - t0 > ttl ==> item_expired(fresh_item(value, t0, Some(ttl)), t),
{
}

/// An item without a time to live never expires.
pub proof fn no_ttl_never_expires<V>(value: V, t0: u64, t: u64)
    ensures
        !item_expired(fresh_item(value, t0, None), t),
{
}

} // verus!
