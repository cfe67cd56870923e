//! In-memory least-recently-used cache of decoded features, keyed by the
//! bytes of the cache file's path and bounded by the byte size of what it
//! holds.
use vstd::prelude::*;

verus! {

/// Capacity of a freshly created or cleared memory cache: 256 MiB.
pub const DEFAULT_MEMORY_CACHE_BYTES: usize = 268435456;

/// One cached value with its key and the byte size it is charged.
pub struct CacheEntry<V> {
    key: Vec<u8>,
    value: V,
    size: usize,
}

/// A byte-bounded LRU cache. Entries are kept from least to most recently
/// used; inserting evicts least recently used entries until the charged
/// sizes fit the capacity again.
pub struct FeatureMemoryCache<V> {
    capacity_bytes: usize,
    used_bytes: usize,
    entries: Vec<CacheEntry<V>>,
}

/// Sum of the sizes in `s`.
pub open spec fn total_size<V>(s: Seq<(Seq<u8>, V, nat)>) -> nat
    decreases s.len(),
{
    if s.len() == 0 {
        0
    } else {
        s[0].2 + total_size(s.drop_first())
    }
}

/// The keys in `s` are pairwise different.
pub open spec fn keys_distinct<V>(s: Seq<(Seq<u8>, V, nat)>) -> bool {
    forall|i: int, j: int| 0 <= i < j < s.len() ==> s[i].0 != s[j].0
}

/// Position of `key` in `s`, if it occurs.
pub open spec fn position_of<V>(s: Seq<(Seq<u8>, V, nat)>, key: Seq<u8>) -> Option<int> {
    if exists|i: int| 0 <= i < s.len() && s[i].0 == key {
        Some(choose|i: int| 0 <= i < s.len() && s[i].0 == key)
    } else {
        None
    }
}

/// `s` with the entry at `i` removed.
pub open spec fn remove_at<V>(s: Seq<(Seq<u8>, V, nat)>, i: int) -> Seq<(Seq<u8>, V, nat)> {
    s.take(i) + s.skip(i + 1)
}

/// `s` without the entry for `key`, if there is one.
pub open spec fn without_key<V>(s: Seq<(Seq<u8>, V, nat)>, key: Seq<u8>) -> Seq<(Seq<u8>, V, nat)> {
    match position_of(s, key) {
        Some(i) => remove_at(s, i),
        None => s,
    }
}

/// What remains of `s` after dropping its least recently used entries until
/// their sizes fit `capacity`.
pub open spec fn evicted<V>(s: Seq<(Seq<u8>, V, nat)>, capacity: nat) -> Seq<(Seq<u8>, V, nat)>
    decreases s.len(),
{
    if s.len() == 0 || total_size(s) <= capacity {
        s
    } else {
        evicted(s.drop_first(), capacity)
    }
}

impl<V> View for FeatureMemoryCache<V> {
    type V = Seq<(Seq<u8>, V, nat)>;

    /// The entries as `(key, value, size)`, least recently used first.
    closed spec fn view(&self) -> Seq<(Seq<u8>, V, nat)> {
        self.entries@.map_values(|e: CacheEntry<V>| (e.key@, e.value, e.size as nat))
    }
}

/// Whether the bytes of `a` and `b` are equal.
fn bytes_equal(a: &[u8], b: &[u8]) -> (r: bool)
    ensures
        r == (a@ == b@),
{
    if a.len() != b.len() {
        return false;
    }
    let mut i: usize = 0;
    while i < a.len()
        invariant
            a@.len() == b@.len(),
            i <= a@.len(),
            forall|k: int| 0 <= k < i ==> a@[k] == b@[k],
        decreases a.len() - i,
    {
        if a[i] != b[i] {
            return false;
        }
        i = i + 1;
    }
    assert(a@ =~= b@);
    true
}

pub proof fn lemma_total_size_push<V>(s: Seq<(Seq<u8>, V, nat)>, e: (Seq<u8>, V, nat))
    ensures
        total_size(s.push(e)) == total_size(s) + e.2,
    decreases s.len(),
{
    if s.len() > 0 {
        assert(s.push(e).drop_first() =~= s.drop_first().push(e));
        lemma_total_size_push(s.drop_first(), e);
        assert(s.push(e)[0] == s[0]);
        assert(total_size(s.push(e)) == s[0].2 + total_size(s.drop_first().push(e)));
    } else {
        assert(s.push(e).drop_first() =~= Seq::<(Seq<u8>, V, nat)>::empty());
        assert(total_size(s.push(e).drop_first()) == 0);
        assert(s.push(e)[0] == e);
    }
}

pub proof fn lemma_total_size_concat<V>(a: Seq<(Seq<u8>, V, nat)>, b: Seq<(Seq<u8>, V, nat)>)
    ensures
        total_size(a + b) == total_size(a) + total_size(b),
    decreases a.len(),
{
    if a.len() > 0 {
        assert((a + b).drop_first() =~= a.drop_first() + b);
        lemma_total_size_concat(a.drop_first(), b);
    }
}

pub proof fn lemma_total_size_remove<V>(s: Seq<(Seq<u8>, V, nat)>, i: int)
    requires
        0 <= i < s.len(),
    ensures
        total_size(remove_at(s, i)) + s[i].2 == total_size(s),
{
    assert(s =~= s.take(i) + (seq![s[i]] + s.skip(i + 1)));
    lemma_total_size_concat(s.take(i), seq![s[i]] + s.skip(i + 1));
    lemma_total_size_concat(seq![s[i]], s.skip(i + 1));
    lemma_total_size_concat(s.take(i), s.skip(i + 1));
    assert((seq![s[i]] + s.skip(i + 1)).drop_first() =~= s.skip(i + 1));
    assert(seq![s[i]].drop_first() =~= Seq::<(Seq<u8>, V, nat)>::empty());
}

pub proof fn lemma_evicted_fits<V>(s: Seq<(Seq<u8>, V, nat)>, capacity: nat)
    ensures
        total_size(evicted(s, capacity)) <= capacity,
        exists|k: int| 0 <= k <= s.len() && evicted(s, capacity) == s.skip(k),
    decreases s.len(),
{
    if s.len() == 0 || total_size(s) <= capacity {
        assert(s.skip(0) =~= s);
    } else {
        lemma_evicted_fits(s.drop_first(), capacity);
        let k = choose|k: int|
            0 <= k <= s.drop_first().len() && evicted(s.drop_first(), capacity) == s.drop_first().skip(
                k,
            );
        assert(s.drop_first().skip(k) =~= s.skip(k + 1));
    }
}


pub proof fn lemma_insert_keeps_keys_distinct<V>(s: Seq<(Seq<u8>, V, nat)>, key: Seq<u8>, value: V, size: nat)
    requires
        keys_distinct(s),
    ensures
        keys_distinct(without_key(s, key).push((key, value, size))),
        forall|i: int|
            0 <= i < without_key(s, key).len() ==> #[trigger] without_key(s, key)[i].0 != key,
{
    let s1 = without_key(s, key);
    let t = s1.push((key, value, size));
    match position_of(s, key) {
        Some(p) => {
            assert(0 <= p < s.len() && s[p].0 == key);
            assert(s1.len() == s.len() - 1);
            assert forall|a: int| 0 <= a < s1.len() implies #[trigger] s1[a] == s[if a < p {
                a
            } else {
                a + 1
            }] by {}
            assert forall|a: int| 0 <= a < s1.len() implies #[trigger] s1[a].0 != key by {
                let ia = if a < p { a } else { a + 1 };
                assert(s1[a] == s[ia]);
            }
            assert forall|a: int, b: int| 0 <= a < b < t.len() implies t[a].0 != t[b].0 by {
                if b < t.len() - 1 {
                    let ia = if a < p { a } else { a + 1 };
                    let ib = if b < p { b } else { b + 1 };
                    assert(t[a] == s[ia]);
                    assert(t[b] == s[ib]);
                } else {
                    assert(t[a] == s1[a]);
                }
            }
        },
        None => {
            assert(!(exists|i: int| 0 <= i < s.len() && s[i].0 == key));
            assert forall|a: int| 0 <= a < s1.len() implies #[trigger] s1[a].0 != key by {
                assert(s1[a] == s[a]);
            }
            assert forall|a: int, b: int| 0 <= a < b < t.len() implies t[a].0 != t[b].0 by {
                assert(t[a] == s[a]);
            }
        },
    }
}

pub proof fn lemma_suffix_keys_distinct<V>(s: Seq<(Seq<u8>, V, nat)>, k: int)
    requires
        keys_distinct(s),
        0 <= k <= s.len(),
    ensures
        keys_distinct(s.skip(k)),
{
    assert forall|a: int, b: int| 0 <= a < b < s.skip(k).len() implies s.skip(k)[a].0 != s.skip(
        k,
    )[b].0 by {
        assert(s.skip(k)[a] == s[a + k]);
        assert(s.skip(k)[b] == s[b + k]);
    }
}

/// Eviction keeps the most recently used entry when its size alone fits.
pub proof fn lemma_evicted_keeps_last<V>(t: Seq<(Seq<u8>, V, nat)>, capacity: nat)
    requires
        t.len() > 0,
        t.last().2 <= capacity,
    ensures
        evicted(t, capacity).len() > 0,
        evicted(t, capacity).last() == t.last(),
    decreases t.len(),
{
    if total_size(t) <= capacity {
    } else if t.len() == 1 {
        assert(t.drop_first() =~= Seq::<(Seq<u8>, V, nat)>::empty());
        assert(total_size(t.drop_first()) == 0);
        assert(total_size(t) == t[0].2);
    } else {
        assert(t.drop_first().last() == t.last());
        lemma_evicted_keeps_last(t.drop_first(), capacity);
    }
}

/// Eviction drops everything when the most recently used entry alone does
/// not fit.
pub proof fn lemma_evicted_drops_oversized<V>(t: Seq<(Seq<u8>, V, nat)>, capacity: nat)
    requires
        t.len() > 0,
        t.last().2 > capacity,
    ensures
        evicted(t, capacity).len() == 0,
    decreases t.len(),
{
    assert(t =~= t.drop_last() + seq![t.last()]);
    lemma_total_size_concat(t.drop_last(), seq![t.last()]);
    assert(seq![t.last()].drop_first() =~= Seq::<(Seq<u8>, V, nat)>::empty());
    assert(total_size(t) > capacity);
    if t.len() > 1 {
        assert(t.drop_first().last() == t.last());
        lemma_evicted_drops_oversized(t.drop_first(), capacity);
    } else {
        assert(t.drop_first() =~= Seq::<(Seq<u8>, V, nat)>::empty());
        assert(evicted(t.drop_first(), capacity).len() == 0);
    }
}

/// After `insert(key, value, size)` with a size that fits the capacity, the
/// entry for `key` is the most recently used one and holds `value`, so a
/// following `get(key)` hits and returns (a clone of) `value`.
pub proof fn law_get_after_insert<V>(s: Seq<(Seq<u8>, V, nat)>, key: Seq<u8>, value: V, size: nat, capacity: nat)
    requires
        keys_distinct(s),
        size <= capacity,
    ensures
        ({
            let t = evicted(without_key(s, key).push((key, value, size)), capacity);
            &&& t.len() > 0
            &&& position_of(t, key) == Some(t.len() - 1)
            &&& t[t.len() - 1] == (key, value, size)
        }),
{
    let u = without_key(s, key).push((key, value, size));
    let t = evicted(u, capacity);
    lemma_insert_keeps_keys_distinct(s, key, value, size);
    lemma_evicted_keeps_last(u, capacity);
    lemma_evicted_fits(u, capacity);
    let k = choose|k: int| 0 <= k <= u.len() && t == u.skip(k);
    lemma_suffix_keys_distinct(u, k);
    let last = t.len() - 1;
    assert(t[last].0 == key);
    let i = choose|i: int| 0 <= i < t.len() && t[i].0 == key;
    assert(i == last) by {
        if i != last {
            assert(t[i].0 != t[last].0);
        }
    }
}

/// After `insert(key, value, size)` with a size larger than the capacity,
/// the cache is empty: the new entry and everything before it are evicted.
pub proof fn law_oversized_insert_empties<V>(s: Seq<(Seq<u8>, V, nat)>, key: Seq<u8>, value: V, size: nat, capacity: nat)
    requires
        size > capacity,
    ensures
        evicted(without_key(s, key).push((key, value, size)), capacity).len() == 0,
{
    lemma_evicted_drops_oversized(without_key(s, key).push((key, value, size)), capacity);
}

/// Inserting never reorders what stays: the entries kept are the most
/// recently used ones, in the same order, and their sizes fit the capacity.
pub proof fn law_insert_evicts_least_recent<V>(s: Seq<(Seq<u8>, V, nat)>, key: Seq<u8>, value: V, size: nat, capacity: nat)
    ensures
        ({
            let u = without_key(s, key).push((key, value, size));
            &&& total_size(evicted(u, capacity)) <= capacity
            &&& exists|k: int| 0 <= k <= u.len() && evicted(u, capacity) == u.skip(k)
        }),
{
    lemma_evicted_fits(without_key(s, key).push((key, value, size)), capacity);
}

/// Inserting into a consistent cache leaves it consistent: keys stay
/// distinct, the held sizes fit the capacity, and the inserted key is held
/// exactly when its own size fits the capacity.
pub proof fn law_insert_keeps_cache_consistent<V>(s: Seq<(Seq<u8>, V, nat)>, key: Seq<u8>, value: V, size: nat, capacity: nat)
    requires
        keys_distinct(s),
    ensures
        ({
            let t = evicted(without_key(s, key).push((key, value, size)), capacity);
            &&& keys_distinct(t)
            &&& total_size(t) <= capacity
            &&& (position_of(t, key) is Some <==> size <= capacity)
        }),
{
    let u = without_key(s, key).push((key, value, size));
    let t = evicted(u, capacity);
    lemma_insert_keeps_keys_distinct(s, key, value, size);
    lemma_evicted_fits(u, capacity);
    let k = choose|k: int| 0 <= k <= u.len() && t == u.skip(k);
    lemma_suffix_keys_distinct(u, k);
    if size <= capacity {
        law_get_after_insert(s, key, value, size, capacity);
    } else {
        lemma_evicted_drops_oversized(u, capacity);
    }
}

impl<V> FeatureMemoryCache<V> {
    /// The cache is consistent: keys are distinct, the byte count is the sum
    /// of the entry sizes and it fits the capacity.
    pub closed spec fn wf(&self) -> bool {
        &&& keys_distinct(self@)
        &&& self.used_bytes as nat == total_size(self@)
        &&& self.used_bytes <= self.capacity_bytes
    }

    /// The capacity in bytes.
    pub closed spec fn capacity(&self) -> nat {
        self.capacity_bytes as nat
    }

    /// Bytes charged for the entries held.
    pub closed spec fn used(&self) -> nat {
        self.used_bytes as nat
    }

    /// What consistency gives the cache's users: its keys are distinct, the
    /// bytes charged are the sum of the entry sizes, and they fit the capacity.
    pub proof fn lemma_wf(&self)
        requires
            self.wf(),
        ensures
            keys_distinct(self@),
            self.used() == total_size(self@),
            self.used() <= self.capacity(),
    {
    }

    /// Creates an empty cache that holds at most `capacity_bytes` bytes.
    pub fn new(capacity_bytes: usize) -> (r: Self)
        ensures
            r.wf(),
            r@ == Seq::<(Seq<u8>, V, nat)>::empty(),
            r.capacity() == capacity_bytes,
    {
        let r = FeatureMemoryCache { capacity_bytes, used_bytes: 0, entries: Vec::new() };
        assert(r@ =~= Seq::<(Seq<u8>, V, nat)>::empty());
        r
    }

    /// The capacity in bytes.
    pub fn capacity_bytes(&self) -> (r: usize)
        ensures
            r == self.capacity(),
    {
        self.capacity_bytes
    }

    /// Bytes charged for the entries held.
    pub fn used_bytes(&self) -> (r: usize)
        requires
            self.wf(),
        ensures
            r == self.used(),
            r == total_size(self@),
            r <= self.capacity(),
    {
        self.used_bytes
    }

    /// Number of entries held.
    pub fn len(&self) -> (r: usize)
        ensures
            r == self@.len(),
    {
        self.entries.len()
    }

    /// Position of the entry for `key`.
    fn find(&self, key: &[u8]) -> (r: Option<usize>)
        requires
            keys_distinct(self@),
        ensures
            r == match position_of(self@, key@) {
                Some(i) => Some(i as usize),
                None => None::<usize>,
            },
            r matches Some(i) ==> i < self@.len() && self@[i as int].0 == key@,
    {
        let mut i: usize = 0;
        while i < self.entries.len()
            invariant
                i <= self.entries@.len(),
                self@.len() == self.entries@.len(),
                keys_distinct(self@),
                forall|k: int| 0 <= k < i ==> self@[k].0 != key@,
            decreases self.entries.len() - i,
        {
            if bytes_equal(self.entries[i].key.as_slice(), key) {
                assert(self@[i as int].0 == key@);
                let ghost j = choose|j: int| 0 <= j < self@.len() && self@[j].0 == key@;
                assert(j == i) by {
                    if j != i {
                        if j < i {
                        } else {
                        }
                    }
                }
                return Some(i);
            }
            i = i + 1;
        }
        None
    }

    /// Removes and returns the entry at `i`, keeping the others in order.
    fn take_at(&mut self, i: usize) -> (r: CacheEntry<V>)
        requires
            i < old(self)@.len(),
            old(self).wf(),
        ensures
            final(self)@ == remove_at(old(self)@, i as int),
            (r.key@, r.value, r.size as nat) == old(self)@[i as int],
            final(self).wf(),
            final(self).capacity() == old(self).capacity(),
    {
        let ghost s = self@;
        let e = self.entries.remove(i);
        proof {
            lemma_total_size_remove(s, i as int);
            assert(self@ =~= remove_at(s, i as int));
        }
        self.used_bytes = self.used_bytes - e.size;
        e
    }

    /// Moves the entry for `key` to the most recently used end.
    fn touch(&mut self, i: usize)
        requires
            i < old(self)@.len(),
            old(self).wf(),
        ensures
            final(self)@ == remove_at(old(self)@, i as int).push(old(self)@[i as int]),
            final(self).wf(),
            final(self).capacity() == old(self).capacity(),
    {
        let ghost s = self@;
        let e = self.entries.remove(i);
        self.entries.push(e);
        proof {
            let t = remove_at(s, i as int).push(s[i as int]);
            assert(self@ =~= t);
            lemma_total_size_remove(s, i as int);
            lemma_total_size_push(remove_at(s, i as int), s[i as int]);
            assert forall|a: int, b: int| 0 <= a < b < t.len() implies t[a].0 != t[b].0 by {
                let ia = if a < i { a } else { a + 1 };
                let ib = if b < t.len() - 1 {
                    if b < i {
                        b
                    } else {
                        b + 1
                    }
                } else {
                    i as int
                };
                assert(t[a] == s[ia]);
                assert(t[b] == s[ib]);
            }
        }
    }

    /// Drops least recently used entries until the held sizes fit the capacity.
    fn evict_if_needed(&mut self)
        requires
            keys_distinct(old(self)@),
            old(self).used_bytes as nat == total_size(old(self)@),
        ensures
            final(self)@ == evicted(old(self)@, old(self).capacity()),
            final(self).wf(),
            final(self).capacity() == old(self).capacity(),
    {
        let ghost cap = self.capacity_bytes as nat;
        let ghost s0 = self@;
        proof {
            assert(s0.skip(0) =~= s0);
        }
        while self.used_bytes > self.capacity_bytes && self.entries.len() > 0
            invariant
                keys_distinct(self@),
                self.used_bytes as nat == total_size(self@),
                self.capacity_bytes as nat == cap,
                evicted(self@, cap) == evicted(s0, cap),
                exists|k: int| 0 <= k <= s0.len() && self@ == s0.skip(k),
            decreases self.entries.len(),
        {
            let ghost s = self@;
            let e = self.entries.remove(0);
            proof {
                assert(self@ =~= s.drop_first());
                assert(s.len() > 0 && total_size(s) > cap);
                let k = choose|k: int| 0 <= k <= s0.len() && s == s0.skip(k);
                assert(s0.skip(k + 1) =~= s.drop_first());
            }
            self.used_bytes = self.used_bytes - e.size;
        }
        proof {
            assert(evicted(self@, cap) == self@);
        }
    }

    /// Looks `key` up. A hit marks the entry as most recently used and returns
    /// a clone of its value; a miss changes nothing.
    pub fn get(&mut self, key: &[u8]) -> (r: Option<V>) where V: Clone
        requires
            old(self).wf(),
        ensures
            final(self).wf(),
            final(self).capacity() == old(self).capacity(),
            match position_of(old(self)@, key@) {
                Some(i) => {
                    &&& final(self)@ == remove_at(old(self)@, i).push(old(self)@[i])
                    &&& r matches Some(v) && vstd::pervasive::cloned(old(self)@[i].1, v)
                },
                None => final(self)@ == old(self)@ && r is None,
            },
    {
        match self.find(key) {
            Some(i) => {
                let v = self.entries[i].value.clone();
                self.touch(i);
                Some(v)
            },
            None => None,
        }
    }

    /// Inserts `value` under `key`, charged `size` bytes, as the most recently
    /// used entry, replacing any entry for `key`; then evicts least recently
    /// used entries until the sizes fit the capacity.
    pub fn insert(&mut self, key: Vec<u8>, value: V, size: usize)
        requires
            old(self).wf(),
            total_size(without_key(old(self)@, key@)) + size <= usize::MAX,
        ensures
            final(self).wf(),
            final(self).capacity() == old(self).capacity(),
            final(self)@ == evicted(
                without_key(old(self)@, key@).push((key@, value, size as nat)),
                old(self).capacity(),
            ),
            keys_distinct(final(self)@),
            position_of(final(self)@, key@) is Some <==> size <= old(self).capacity(),
    {
        proof {
            law_insert_keeps_cache_consistent(self@, key@, value, size as nat, self.capacity());
        }
        let ghost s0 = self@;
        let ghost k = key@;
        match self.find(key.as_slice()) {
            Some(i) => {
                let _prev = self.take_at(i);
            },
            None => {},
        }
        assert(self@ == without_key(s0, k));
        let ghost s1 = self@;
        self.entries.push(CacheEntry { key, value, size });
        proof {
            let t = s1.push((k, value, size as nat));
            assert(self@ =~= t);
            lemma_total_size_push(s1, (k, value, size as nat));
            lemma_insert_keeps_keys_distinct(s0, k, value, size as nat);
        }
        self.used_bytes = self.used_bytes + size;
        self.evict_if_needed();
    }

    /// Empties the cache and sets its capacity back to
    /// [`DEFAULT_MEMORY_CACHE_BYTES`].
    pub fn clear(&mut self)
        ensures
            final(self).wf(),
            final(self)@ == Seq::<(Seq<u8>, V, nat)>::empty(),
            final(self).capacity() == DEFAULT_MEMORY_CACHE_BYTES,
    {
        *self = FeatureMemoryCache::new(DEFAULT_MEMORY_CACHE_BYTES);
    }

    /// Makes the capacity `capacity_bytes`: a cache that already has it is
    /// left as it is, any other is replaced by an empty one.
    pub fn reconfigure(&mut self, capacity_bytes: usize)
        requires
            old(self).wf(),
        ensures
            final(self).wf(),
            final(self).capacity() == capacity_bytes,
            old(self).capacity() == capacity_bytes ==> final(self)@ == old(self)@,
            old(self).capacity() != capacity_bytes ==> final(self)@ == Seq::<
                (Seq<u8>, V, nat),
            >::empty(),
    {
        if self.capacity_bytes != capacity_bytes {
            *self = FeatureMemoryCache::new(capacity_bytes);
        }
    }
}

/// Empties the feature memory cache and restores its default capacity.
pub fn clear_feature_memory_cache<V>(cache: &mut FeatureMemoryCache<V>)
    ensures
        final(cache).wf(),
        final(cache)@ == Seq::<(Seq<u8>, V, nat)>::empty(),
        final(cache).capacity() == DEFAULT_MEMORY_CACHE_BYTES,
{
    cache.clear();
}

/// Capacity for a configured limit in MiB: `mb * 1024 * 1024`, saturating,
/// and at least one byte.
pub fn configured_capacity_bytes(memory_cache_max_mb: usize) -> (r: usize)
    ensures
        r == if memory_cache_max_mb * 1048576 > usize::MAX {
            usize::MAX as int
        } else if memory_cache_max_mb == 0 {
            1
        } else {
            memory_cache_max_mb * 1048576
        },
{
    let bytes: usize = if memory_cache_max_mb > usize::MAX / 1048576 {
        proof {
            assert(memory_cache_max_mb * 1048576 > usize::MAX) by (nonlinear_arith)
                requires
                    memory_cache_max_mb > usize::MAX / 1048576,
            ;
        }
        usize::MAX
    } else {
        proof {
            assert(memory_cache_max_mb * 1048576 <= usize::MAX) by (nonlinear_arith)
                requires
                    memory_cache_max_mb <= usize::MAX / 1048576,
            ;
        }
        memory_cache_max_mb * 1048576
    };
    if bytes > 1 {
        bytes
    } else {
        1
    }
}

} // verus!
