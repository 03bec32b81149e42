//! The cache-aside executor: serve a stored response when there is one,
//! otherwise compute it and store it under its key with a resource-specific
//! time-to-live.
//!
//! Concurrent misses on one key are not merged: each caller computes and
//! writes, and the last write wins.
use vstd::prelude::*;
use crate::error::ApiError;

verus! {

/// Time-to-live of cached responses, in seconds, by resource tag.
pub struct CacheConfig {
    pub anchor_ttl_secs: u64,
    pub corridor_ttl_secs: u64,
    pub default_ttl_secs: u64,
}

impl CacheConfig {
    pub open spec fn ttl_spec(&self, tag: Seq<char>) -> u64 {
        if tag == "anchor"@ {
            self.anchor_ttl_secs
        } else if tag == "corridor"@ {
            self.corridor_ttl_secs
        } else {
            self.default_ttl_secs
        }
    }

    /// The time-to-live for a resource tag; an unknown tag gets the default.
    pub fn get_ttl(&self, tag: &str) -> (r: u64)
        ensures
            r == self.ttl_spec(tag@),
    {
        let t = String::from_str(tag);
        if t.eq(&String::from_str("anchor")) {
            self.anchor_ttl_secs
        } else if t.eq(&String::from_str("corridor")) {
            self.corridor_ttl_secs
        } else {
            self.default_ttl_secs
        }
    }
}

/// One write into the cache: the serialized response and the time-to-live it
/// was written with.
pub struct CacheEntry {
    pub key: String,
    pub value: Vec<u8>,
    pub ttl_secs: u64,
}

/// The latest write under key `k`, if any.
pub open spec fn lookup_spec(es: Seq<CacheEntry>, k: Seq<char>) -> Option<(Seq<u8>, u64)>
    decreases es.len(),
{
    if es.len() == 0 {
        None
    } else if es.last().key@ == k {
        Some((es.last().value@, es.last().ttl_secs))
    } else {
        lookup_spec(es.drop_last(), k)
    }
}

/// No two entries share a key.
pub open spec fn unique_keys(es: Seq<CacheEntry>) -> bool {
    forall|i: int, j: int| 0 <= i < j < es.len() ==> es[i].key@ != es[j].key@
}

proof fn lemma_lookup_at(es: Seq<CacheEntry>, i: int)
    requires
        unique_keys(es),
        0 <= i < es.len(),
    ensures
        lookup_spec(es, es[i].key@) == Some((es[i].value@, es[i].ttl_secs)),
    decreases es.len(),
{
    if i < es.len() - 1 {
        assert(es.last().key@ != es[i].key@);
        let t = es.drop_last();
        assert(t[i] == es[i]);
        lemma_lookup_at(t, i);
    }
}

proof fn lemma_lookup_absent(es: Seq<CacheEntry>, k: Seq<char>)
    requires
        forall|i: int| 0 <= i < es.len() ==> (#[trigger] es[i]).key@ != k,
    ensures
        lookup_spec(es, k) is None,
    decreases es.len(),
{
    if es.len() > 0 {
        let t = es.drop_last();
        assert forall|i: int| 0 <= i < t.len() implies (#[trigger] t[i]).key@ != k by {
            assert(t[i] == es[i]);
        }
        assert(es[es.len() - 1].key@ != k);
        lemma_lookup_absent(t, k);
    }
}

/// Two entry lists with unique keys that hold the same entries under key `k`
/// answer the same for `k`.
proof fn lemma_lookup_same(a: Seq<CacheEntry>, b: Seq<CacheEntry>, k: Seq<char>)
    requires
        unique_keys(a),
        unique_keys(b),
        a.len() <= b.len(),
        forall|i: int| 0 <= i < a.len() && (a[i].key@ == k || b[i].key@ == k) ==> a[i] == b[i],
        forall|i: int| a.len() <= i < b.len() ==> b[i].key@ != k,
    ensures
        lookup_spec(a, k) == lookup_spec(b, k),
{
    if exists|i: int| 0 <= i < a.len() && (#[trigger] a[i]).key@ == k {
        let i = choose|i: int| 0 <= i < a.len() && (#[trigger] a[i]).key@ == k;
        lemma_lookup_at(a, i);
        lemma_lookup_at(b, i);
    } else {
        lemma_lookup_absent(a, k);
        assert forall|i: int| 0 <= i < b.len() implies (#[trigger] b[i]).key@ != k by {
            if i < a.len() {
                assert(a[i].key@ != k);
            }
        }
        lemma_lookup_absent(b, k);
    }
}

/// An in-process cache store holding at most one entry per key.
pub struct MemoryCache {
    entries: Vec<CacheEntry>,
}

impl MemoryCache {
    /// What the cache answers for key `k`: the stored value and its TTL.
    pub closed spec fn lookup(&self, k: Seq<char>) -> Option<(Seq<u8>, u64)> {
        lookup_spec(self.entries@, k)
    }

    /// The store holds one entry per key.
    pub closed spec fn wf(&self) -> bool {
        unique_keys(self.entries@)
    }

    pub fn new() -> (r: MemoryCache)
        ensures
            r.wf(),
            forall|k: Seq<char>| r.lookup(k) is None,
    {
        MemoryCache { entries: Vec::new() }
    }

    /// Reads the value stored under `key`.
    pub fn get(&self, key: &String) -> (r: Option<Vec<u8>>)
        ensures
            match self.lookup(key@) {
                Some(e) => r matches Some(v) && v@ == e.0,
                None => r is None,
            },
    {
        let mut i: usize = self.entries.len();
        proof {
            assert(self.entries@.subrange(0, self.entries@.len() as int) =~= self.entries@);
        }
        while i > 0
            invariant
                i <= self.entries@.len(),
                lookup_spec(self.entries@.subrange(0, i as int), key@) == lookup_spec(self.entries@, key@),
            decreases i,
        {
            let ghost pre = self.entries@.subrange(0, i as int);
            proof {
                assert(pre.drop_last() =~= self.entries@.subrange(0, i - 1));
                assert(pre.last() == self.entries@[i - 1]);
            }
            if self.entries[i - 1].key.eq(key) {
                let v = copy_bytes(&self.entries[i - 1].value);
                return Some(v);
            }
            i = i - 1;
        }
        proof {
            assert(self.entries@.subrange(0, 0) =~= Seq::<CacheEntry>::empty());
        }
        None
    }

    /// Stores `value` under `key` with time-to-live `ttl_secs`, overwriting
    /// what the key held; no other key is touched.
    pub fn set(&mut self, key: String, value: Vec<u8>, ttl_secs: u64)
        requires
            old(self).wf(),
        ensures
            final(self).wf(),
            final(self).lookup(key@) == Some((value@, ttl_secs)),
            forall|k: Seq<char>| k != key@ ==> final(self).lookup(k) == old(self).lookup(k),
    {
        let ghost k0 = key@;
        let ghost v0 = value@;
        let ghost old_es = self.entries@;
        let mut i: usize = 0;
        let mut found = false;
        while i < self.entries.len() && !found
            invariant
                self.entries@ == old_es,
                key@ == k0,
                value@ == v0,
                i <= old_es.len(),
                found ==> i < old_es.len() && old_es[i as int].key@ == k0,
                !found ==> forall|j: int| 0 <= j < i ==> old_es[j].key@ != k0,
            decreases old_es.len() - i + if found { 0int } else { 1int },
        {
            if self.entries[i].key.eq(&key) {
                found = true;
            } else {
                i = i + 1;
            }
        }
        let entry = CacheEntry { key, value, ttl_secs };
        if found {
            self.entries.set(i, entry);
            proof {
                let es = self.entries@;
                assert(unique_keys(es)) by {
                    assert forall|a: int, b: int| 0 <= a < b < es.len() implies es[a].key@ != es[b].key@ by {
                        if a == i {
                            assert(es[a].key@ == old_es[a].key@);
                        } else if b == i {
                            assert(es[b].key@ == old_es[b].key@);
                        }
                    }
                }
                lemma_lookup_at(es, i as int);
                assert forall|k: Seq<char>| k != k0 implies lookup_spec(es, k) == lookup_spec(old_es, k) by {
                    lemma_lookup_same(old_es, es, k);
                }
            }
        } else {
            self.entries.push(entry);
            proof {
                let es = self.entries@;
                assert(es[old_es.len() as int].key@ == k0);
                assert(unique_keys(es)) by {
                    assert forall|a: int, b: int| 0 <= a < b < es.len() implies es[a].key@ != es[b].key@ by {
                        assert(es[a] == old_es[a]);
                        if b < old_es.len() {
                            assert(es[b] == old_es[b]);
                        }
                    }
                }
                lemma_lookup_at(es, old_es.len() as int);
                assert forall|k: Seq<char>| k != k0 implies lookup_spec(es, k) == lookup_spec(old_es, k) by {
                    lemma_lookup_same(old_es, es, k);
                }
            }
        }
    }
}

fn copy_bytes(v: &Vec<u8>) -> (r: Vec<u8>)
    ensures
        r@ == v@,
{
    let mut out: Vec<u8> = Vec::new();
    let mut i: usize = 0;
    while i < v.len()
        invariant
            i <= v@.len(),
            out@ == v@.subrange(0, i as int),
        decreases v@.len() - i,
    {
        out.push(v[i]);
        i = i + 1;
        proof {
            assert(out@ =~= v@.subrange(0, i as int));
        }
    }
    proof {
        assert(v@.subrange(0, i as int) =~= v@);
    }
    out
}

/// Serves the response cached under `key`, or computes it. On a hit `compute`
/// is not called and the cache is left as it was. On a miss `compute` is
/// called once; its result is stored under `key` with `ttl_secs` only when it
/// succeeds, and a failure is passed on with nothing written. The second
/// component of the result tells whether `compute` ran.
pub fn get_or_fetch<F>(cache: &mut MemoryCache, key: &String, ttl_secs: u64, compute: F) -> (r: (
    Result<Vec<u8>, ApiError>,
    bool,
))
    where
        F: FnOnce() -> Result<Vec<u8>, ApiError>,
    requires
        old(cache).wf(),
        compute.requires(()),
    ensures
        final(cache).wf(),
        r.1 == !serves_from_cache(*old(cache), key@),
        match old(cache).lookup(key@) {
            Some(e) => {
                &&& r.0 matches Ok(v) && v@ == e.0
                &&& !r.1
                &&& forall|k: Seq<char>| final(cache).lookup(k) == old(cache).lookup(k)
            },
            None => {
                &&& r.1
                &&& compute.ensures((), r.0)
                &&& match r.0 {
                    Ok(v) => {
                        &&& final(cache).lookup(key@) == Some((v@, ttl_secs))
                        &&& forall|k: Seq<char>| k != key@ ==> final(cache).lookup(k) == old(cache).lookup(k)
                    },
                    Err(_) => forall|k: Seq<char>| final(cache).lookup(k) == old(cache).lookup(k),
                }
            },
        },
{
    match cache.get(key) {
        Some(v) => (Ok(v), false),
        None => {
            let computed = compute();
            match computed {
                Ok(v) => {
                    let stored = copy_bytes(&v);
                    cache.set(key.clone(), stored, ttl_secs);
                    (Ok(v), true)
                },
                Err(e) => (Err(e), true),
            }
        },
    }
}

/// A key is served from the cache, without computing, when the cache holds a
/// value under it.
pub open spec fn serves_from_cache(cache: MemoryCache, key: Seq<char>) -> bool {
    cache.lookup(key) is Some
}

/// Once a miss has computed and stored a response (the state that
/// `get_or_fetch` leaves after a successful computation), a repeated request
/// with the same key is served from the cache, with the stored response, and
/// does not compute again.
pub proof fn lemma_round_trip_hits(cache: MemoryCache, key: Seq<char>, value: Seq<u8>, ttl_secs: u64)
    requires
        cache.lookup(key) == Some((value, ttl_secs)),
    ensures
        serves_from_cache(cache, key),
        cache.lookup(key).unwrap().0 == value,
{
}

} // verus!
