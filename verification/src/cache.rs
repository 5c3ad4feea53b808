//! Read-through cache state for stable identifiers and mutable
//! agreement/price lookups, with hit/miss counters.
//!
//! Stable-identifier entries carry no time-to-live and never expire;
//! mutable-data entries carry one and expire when it elapses. This module
//! holds only the cache's decision logic — what is a hit, what a miss, and
//! how an insert replaces an entry — as pure state transitions; the caller
//! performs the backing fetch on a miss and writes the result back through
//! [`TtlCache::insert`], collapsing concurrent misses however it chooses.

use vstd::prelude::*;

verus! {

/// One cached entry: a key, its value, when it was written, and an
/// optional time-to-live in the caller's clock units.
#[derive(Debug, Clone)]
pub struct CacheEntry<V> {
    /// Lookup key.
    pub key: String,
    /// Cached value.
    pub value: V,
    /// Caller-clock instant at which the entry was written.
    pub inserted_at: i64,
    /// Time-to-live; `None` never expires.
    pub ttl: Option<i64>,
}

/// Whether an entry is still live at instant `now`.
pub open spec fn entry_live<V>(e: CacheEntry<V>, now: int) -> bool {
    match e.ttl {
        None => true,
        Some(t) => now < e.inserted_at + t,
    }
}

/// A cache over string keys, with hit and miss counters for observability.
/// Counters saturate rather than wrap.
#[derive(Debug, Clone)]
pub struct TtlCache<V> {
    /// The entries, one per key.
    pub entries: Vec<CacheEntry<V>>,
    /// Number of probes answered from a live entry.
    pub hits: u64,
    /// Number of probes not answered.
    pub misses: u64,
}

impl<V> TtlCache<V> {
    /// Well-formedness: at most one entry per key, and no negative
    /// time-to-live.
    pub open spec fn wf(self) -> bool {
        &&& forall|i: int, j: int|
            0 <= i < j < self.entries@.len() ==> #[trigger] self.entries@[i].key@ != #[trigger] self
                .entries@[j].key@
        &&& forall|i: int|
            0 <= i < self.entries@.len() ==> match #[trigger] self.entries@[i].ttl {
                Some(t) => t >= 0,
                None => true,
            }
    }

    /// Whether some entry holds the key and is live at `now`.
    pub open spec fn has_live(self, key: Seq<char>, now: int) -> bool {
        exists|i: int|
            0 <= i < self.entries@.len() && #[trigger] self.entries@[i].key@ == key && entry_live(
                self.entries@[i],
                now,
            )
    }

    /// An empty cache with zeroed counters.
    pub fn new() -> (r: TtlCache<V>)
        ensures
            r.wf(),
            r.entries@.len() == 0,
            r.hits == 0,
            r.misses == 0,
    {
        TtlCache { entries: Vec::new(), hits: 0, misses: 0 }
    }

    /// Looks the key up at instant `now`, counting a hit or a miss. The
    /// entries themselves do not change; an expired entry is a miss.
    pub fn probe(&mut self, key: &String, now: i64) -> (r: Option<usize>)
        requires
            old(self).wf(),
        ensures
            final(self).entries@ == old(self).entries@,
            match r {
                Some(i) => {
                    &&& i < old(self).entries@.len()
                    &&& old(self).entries@[i as int].key@ == key@
                    &&& entry_live(old(self).entries@[i as int], now as int)
                    &&& final(self).hits == old(self).hits.saturating_add(1)
                    &&& final(self).misses == old(self).misses
                },
                None => {
                    &&& !old(self).has_live(key@, now as int)
                    &&& final(self).hits == old(self).hits
                    &&& final(self).misses == old(self).misses.saturating_add(1)
                },
            },
    {
        let mut i: usize = 0;
        while i < self.entries.len()
            invariant
                i <= self.entries@.len(),
                *self == *old(self),
                self.wf(),
                forall|j: int|
                    0 <= j < i ==> !(#[trigger] self.entries@[j].key@ == key@ && entry_live(
                        self.entries@[j],
                        now as int,
                    )),
            decreases self.entries@.len() - i,
        {
            let e = &self.entries[i];
            let live = match e.ttl {
                None => true,
                Some(t) => match e.inserted_at.checked_add(t) {
                    Some(deadline) => now < deadline,
                    None => true,
                },
            };
            if live && e.key == *key {
                self.hits = self.hits.saturating_add(1);
                return Some(i);
            }
            i = i + 1;
        }
        self.misses = self.misses.saturating_add(1);
        None
    }

    /// The value of entry `i`.
    pub fn value_at(&self, i: usize) -> (r: &V)
        requires
            i < self.entries@.len(),
        ensures
            *r == self.entries@[i as int].value,
    {
        &self.entries[i].value
    }

    /// Writes a value for a key at instant `now`: replaces the key's entry
    /// if one exists, else appends a new one. Counters do not change and
    /// no other key's entry is touched.
    pub fn insert(&mut self, key: String, value: V, now: i64, ttl: Option<i64>)
        requires
            old(self).wf(),
            ttl matches Some(t) ==> t >= 0,
        ensures
            final(self).wf(),
            final(self).hits == old(self).hits,
            final(self).misses == old(self).misses,
            ({
                let e = CacheEntry { key, value, inserted_at: now, ttl };
                if exists|i: int|
                    0 <= i < old(self).entries@.len() && #[trigger] old(self).entries@[i].key@
                        == key@ {
                    final(self).entries@ == old(self).entries@.update(
                        choose|i: int|
                            0 <= i < old(self).entries@.len() && #[trigger] old(
                                self,
                            ).entries@[i].key@ == key@,
                        e,
                    )
                } else {
                    final(self).entries@ == old(self).entries@.push(e)
                }
            }),
    {
        let mut i: usize = 0;
        while i < self.entries.len()
            invariant
                i <= self.entries@.len(),
                *self == *old(self),
                old(self).wf(),
                ttl matches Some(t) ==> t >= 0,
                forall|j: int| 0 <= j < i ==> #[trigger] self.entries@[j].key@ != key@,
            decreases self.entries@.len() - i,
        {
            if self.entries[i].key == key {
                proof {
                    let w = choose|w: int|
                        0 <= w < old(self).entries@.len() && #[trigger] old(
                            self,
                        ).entries@[w].key@ == key@;
                    assert(w == i as int);
                }
                self.entries.set(i, CacheEntry { key, value, inserted_at: now, ttl });
                return ;
            }
            i = i + 1;
        }
        self.entries.push(CacheEntry { key, value, inserted_at: now, ttl });
    }
}

} // verus!
