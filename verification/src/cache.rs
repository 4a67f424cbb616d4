use vstd::prelude::*;

use crate::constants::{MAX_CACHE_SIZE, MAX_FILE_SIZE};

verus! {

/// Metadata stored beside a cached body.
#[derive(Clone)]
pub struct CacheMeta {
    /// MIME type echoed back to clients.
    pub content_type: String,
    /// True iff the stored bytes are the whole resource.
    pub is_complete: bool,
    /// The resource's full length, when known.
    pub total_size: Option<u64>,
}

/// Ghost image of `CacheMeta`.
pub struct MetaView {
    pub content_type: Seq<char>,
    pub is_complete: bool,
    pub total_size: Option<u64>,
}

impl View for CacheMeta {
    type V = MetaView;

    open spec fn view(&self) -> MetaView {
        MetaView {
            content_type: self.content_type@,
            is_complete: self.is_complete,
            total_size: self.total_size,
        }
    }
}

/// One cached resource: its bytes and their metadata.
#[derive(Clone)]
pub struct CacheEntry {
    pub content: Vec<u8>,
    pub meta: CacheMeta,
}

/// Ghost image of `CacheEntry`.
pub struct EntryView {
    pub content: Seq<u8>,
    pub meta: MetaView,
}

impl View for CacheEntry {
    type V = EntryView;

    open spec fn view(&self) -> EntryView {
        EntryView { content: self.content@, meta: self.meta@ }
    }
}

/// An entry's bookkeeping is consistent: it never claims more bytes than it
/// holds, and a complete entry holds exactly its declared total.
pub open spec fn entry_wf(e: EntryView) -> bool {
    match e.meta.total_size {
        Some(t) => e.content.len() <= t && (e.meta.is_complete ==> e.content.len() == t),
        None => true,
    }
}

impl CacheMeta {
    /// An equal copy.
    pub fn duplicate(&self) -> (r: CacheMeta)
        ensures
            r@ == self@,
    {
        CacheMeta {
            content_type: self.content_type.clone(),
            is_complete: self.is_complete,
            total_size: self.total_size,
        }
    }
}

impl CacheEntry {
    /// An equal copy.
    pub fn duplicate(&self) -> (r: CacheEntry)
        ensures
            r@ == self@,
    {
        CacheEntry { content: crate::range::copy_bytes(&self.content), meta: self.meta.duplicate() }
    }
}

#[verifier::external_type_specification]
#[verifier::external_body]
#[verifier::reject_recursive_types(K)]
#[verifier::reject_recursive_types(V)]
#[verifier::reject_recursive_types(S)]
pub struct ExLruCache<K, V, S>(lru::LruCache<K, V, S>);

/// What the memory tier holds: the entry stored under each key.
pub uninterp spec fn lru_entries(c: lru::LruCache<String, CacheEntry, std::collections::hash_map::RandomState>) -> Map<Seq<char>, EntryView>;

/// The memory tier's recency list: every held key once, most recently used first.
pub uninterp spec fn lru_order(c: lru::LruCache<String, CacheEntry, std::collections::hash_map::RandomState>) -> Seq<Seq<char>>;

/// The recency list after `k` moves to the front.
pub open spec fn promoted(ord: Seq<Seq<char>>, k: Seq<char>) -> Seq<Seq<char>> {
    seq![k] + ord.remove_value(k)
}

/// The held entries after `k` is bound to `v`: an insert, on top of evicting
/// the least recently used key when a full tier takes a new key.
pub open spec fn entries_after_put(
    m: Map<Seq<char>, EntryView>,
    ord: Seq<Seq<char>>,
    k: Seq<char>,
    v: EntryView,
) -> Map<Seq<char>, EntryView> {
    if m.contains_key(k) || ord.len() < MAX_CACHE_SIZE {
        m.insert(k, v)
    } else {
        m.remove(ord.last()).insert(k, v)
    }
}

/// The recency list after `k` is bound: an existing key is promoted, a new
/// key enters at the front, dropping the least recently used key when full.
pub open spec fn order_after_put(
    m: Map<Seq<char>, EntryView>,
    ord: Seq<Seq<char>>,
    k: Seq<char>,
) -> Seq<Seq<char>> {
    if m.contains_key(k) {
        promoted(ord, k)
    } else if ord.len() < MAX_CACHE_SIZE {
        seq![k] + ord
    } else {
        seq![k] + ord.drop_last()
    }
}

/// A tier with nothing in it.
pub open spec fn no_entries() -> Map<Seq<char>, EntryView> {
    Map::empty()
}

/// An empty recency list.
pub open spec fn no_keys() -> Seq<Seq<char>> {
    Seq::empty()
}

/// Relies on lru::LruCache::with_hasher: a fresh cache, of capacity
/// MAX_CACHE_SIZE, holds nothing.
#[verifier::external_body]
fn lru_new() -> (c: lru::LruCache<String, CacheEntry, std::collections::hash_map::RandomState>)
    ensures
        lru_entries(c) == no_entries(),
        lru_order(c) == no_keys(),
{
    lru::LruCache::with_hasher(
        core::num::NonZeroUsize::new(MAX_CACHE_SIZE).unwrap(),
        std::collections::hash_map::RandomState::new(),
    )
}

/// The bounded in-memory cache tier: an LRU map from cache key to entry.
struct MemoryTier {
    lru: lru::LruCache<String, CacheEntry, std::collections::hash_map::RandomState>,
}

impl MemoryTier {
    /// The entry stored under each key.
    spec fn entries(self) -> Map<Seq<char>, EntryView> {
        lru_entries(self.lru)
    }

    /// Every held key once, most recently used first.
    spec fn order(self) -> Seq<Seq<char>> {
        lru_order(self.lru)
    }

    /// The recency list carries exactly the held keys, once each, and the
    /// tier never exceeds its capacity.
    spec fn wf(self) -> bool {
        &&& self.entries().dom().finite()
        &&& self.order().no_duplicates()
        &&& self.order().to_set() == self.entries().dom()
        &&& self.order().len() <= MAX_CACHE_SIZE
    }

    /// A fresh, empty tier.
    fn new() -> (t: Self)
        ensures
            t.entries() == no_entries(),
            t.order() == no_keys(),
    {
        MemoryTier { lru: lru_new() }
    }

    /// Relies on lru::LruCache::get: hands back a copy of the entry under
    /// `key`, if one is held, moving that key to the front of the recency
    /// list; a miss changes nothing.
    #[verifier::external_body]
    fn get(&mut self, key: &String) -> (r: Option<CacheEntry>)
        ensures
            lru_entries(final(self).lru) == lru_entries(old(self).lru),
            match r {
                Some(e) => {
                    &&& lru_entries(old(self).lru).contains_key(key@)
                    &&& e@ == lru_entries(old(self).lru)[key@]
                    &&& lru_order(final(self).lru) == promoted(lru_order(old(self).lru), key@)
                },
                None => {
                    &&& !lru_entries(old(self).lru).contains_key(key@)
                    &&& lru_order(final(self).lru) == lru_order(old(self).lru)
                },
            },
    {
        self.lru.get(key).cloned()
    }

    /// Relies on lru::LruCache::put: binds `key` to `value`; an existing key
    /// is updated in place and promoted, a new key enters at the front and,
    /// when the tier is at capacity, the least recently used key is evicted.
    /// Every tier is built by `lru_new` with capacity MAX_CACHE_SIZE, so a
    /// well-formed tier is at capacity exactly when its recency list has
    /// MAX_CACHE_SIZE keys.
    #[verifier::external_body]
    fn put(&mut self, key: String, value: CacheEntry)
        requires
            old(self).wf(),
        ensures
            lru_entries(final(self).lru) == entries_after_put(
                lru_entries(old(self).lru),
                lru_order(old(self).lru),
                key@,
                value@,
            ),
            lru_order(final(self).lru) == order_after_put(
                lru_entries(old(self).lru),
                lru_order(old(self).lru),
                key@,
            ),
    {
        self.lru.put(key, value);
    }
}

/// Promoting a key it contains permutes the recency list.
proof fn lemma_promoted_wf(ord: Seq<Seq<char>>, k: Seq<char>)
    requires
        ord.no_duplicates(),
        ord.contains(k),
    ensures
        promoted(ord, k).no_duplicates(),
        promoted(ord, k).to_set() == ord.to_set(),
        promoted(ord, k).len() == ord.len(),
{
    ord.index_of_first_ensures(k);
    let i = ord.index_of_first(k).unwrap();
    ord.remove_ensures(i);
    let rem = ord.remove(i);
    let p = promoted(ord, k);
    assert forall|a: int, b: int| 0 <= a < b < rem.len() implies rem[a] != rem[b] by {
        let a0 = if a < i { a } else { a + 1 };
        let b0 = if b < i { b } else { b + 1 };
        assert(rem[a] == ord[a0] && rem[b] == ord[b0]);
    }
    assert forall|a: int| 0 <= a < rem.len() implies rem[a] != k by {
        let a0 = if a < i { a } else { a + 1 };
        assert(rem[a] == ord[a0]);
    }
    assert(p.no_duplicates());
    assert forall|x: Seq<char>| ord.to_set().contains(x) implies p.to_set().contains(x) by {
        let j = choose|j: int| 0 <= j < ord.len() && ord[j] == x;
        if j == i {
            assert(p[0] == x);
        } else if j < i {
            assert(p[j + 1] == rem[j]);
            assert(rem[j] == x);
        } else {
            assert(p[j] == rem[j - 1]);
            assert(rem[j - 1] == x);
        }
        assert(p.contains(x));
    }
    assert forall|x: Seq<char>| p.to_set().contains(x) implies ord.to_set().contains(x) by {
        let j = choose|j: int| 0 <= j < p.len() && p[j] == x;
        if j == 0 {
            assert(ord[i] == x);
        } else {
            let a0 = if j - 1 < i { j - 1 } else { j };
            assert(ord[a0] == rem[j - 1]);
            assert(rem[j - 1] == x);
        }
        assert(ord.contains(x));
    }
    assert(p.to_set() =~= ord.to_set());
}

/// Binding a key keeps the tier's bookkeeping consistent.
proof fn lemma_put_preserves_wf(
    m: Map<Seq<char>, EntryView>,
    ord: Seq<Seq<char>>,
    k: Seq<char>,
    v: EntryView,
)
    requires
        m.dom().finite(),
        ord.no_duplicates(),
        ord.to_set() == m.dom(),
        ord.len() <= MAX_CACHE_SIZE,
    ensures
        entries_after_put(m, ord, k, v).dom().finite(),
        order_after_put(m, ord, k).no_duplicates(),
        order_after_put(m, ord, k).to_set() == entries_after_put(m, ord, k, v).dom(),
        order_after_put(m, ord, k).len() <= MAX_CACHE_SIZE,
{
    let m2 = entries_after_put(m, ord, k, v);
    let ord2 = order_after_put(m, ord, k);
    if m.contains_key(k) {
        assert(ord.to_set().contains(k));
        assert(ord.contains(k));
        lemma_promoted_wf(ord, k);
        assert(m2.dom() =~= m.dom());
    } else if ord.len() < MAX_CACHE_SIZE {
        assert(!ord.to_set().contains(k));
        assert forall|a: int, b: int| 0 <= a < b < ord2.len() implies ord2[a] != ord2[b] by {
            if a == 0 {
                assert(ord2[b] == ord[b - 1]);
                assert(ord.contains(ord[b - 1]));
            }
        }
        assert forall|x: Seq<char>| ord2.to_set().contains(x) implies m2.dom().contains(x) by {
            let j = choose|j: int| 0 <= j < ord2.len() && ord2[j] == x;
            if j > 0 {
                assert(ord[j - 1] == x);
                assert(ord.contains(x));
            }
        }
        assert forall|x: Seq<char>| m2.dom().contains(x) implies ord2.to_set().contains(x) by {
            if x == k {
                assert(ord2[0] == x);
            } else {
                let j = choose|j: int| 0 <= j < ord.len() && ord[j] == x;
                assert(ord2[j + 1] == x);
            }
            assert(ord2.contains(x));
        }
        assert(ord2.to_set() =~= m2.dom());
    } else {
        let victim = ord.last();
        assert(ord.len() == MAX_CACHE_SIZE);
        assert(!ord.to_set().contains(k));
        let dropped = ord.drop_last();
        assert(ord.contains(victim)) by {
            assert(ord[ord.len() - 1] == victim);
        }
        assert forall|a: int, b: int| 0 <= a < b < ord2.len() implies ord2[a] != ord2[b] by {
            if a == 0 {
                assert(ord2[b] == ord[b - 1]);
                assert(ord.contains(ord[b - 1]));
            } else {
                assert(ord2[a] == ord[a - 1] && ord2[b] == ord[b - 1]);
            }
        }
        assert forall|x: Seq<char>| ord2.to_set().contains(x) implies m2.dom().contains(x) by {
            let j = choose|j: int| 0 <= j < ord2.len() && ord2[j] == x;
            if j > 0 {
                assert(ord[j - 1] == x);
                assert(j - 1 < ord.len() - 1);
                assert(x != victim);
                assert(ord.contains(x));
            }
        }
        assert forall|x: Seq<char>| m2.dom().contains(x) implies ord2.to_set().contains(x) by {
            if x == k {
                assert(ord2[0] == x);
            } else {
                assert(m.dom().contains(x) && x != victim);
                let j = choose|j: int| 0 <= j < ord.len() && ord[j] == x;
                assert(j != ord.len() - 1);
                assert(ord2[j + 1] == x);
            }
            assert(ord2.contains(x));
        }
        assert(ord2.to_set() =~= m2.dom());
    }
}

/// The key-to-entry cache store's in-process face: the bounded LRU memory
/// tier, together with the read-through and write-through decisions that
/// govern it. The durable tier's records are read and written by the caller,
/// who funnels every durable hit through `promote` and persists every entry
/// this store accepts in `set`.
pub struct ProxyCache {
    mem: MemoryTier,
}

impl ProxyCache {
    /// The entry held in memory under each key.
    pub closed spec fn entries(self) -> Map<Seq<char>, EntryView> {
        self.mem.entries()
    }

    /// The memory tier's recency list, most recently used first.
    pub closed spec fn order(self) -> Seq<Seq<char>> {
        self.mem.order()
    }

    /// The memory tier's bookkeeping is consistent.
    pub closed spec fn wf(self) -> bool {
        self.mem.wf()
    }

    /// An empty store.
    pub fn new() -> (c: Self)
        ensures
            c.wf(),
            c.entries() == no_entries(),
            c.order() == no_keys(),
    {
        let c = ProxyCache { mem: MemoryTier::new() };
        proof {
            assert(c.order().to_set() =~= c.entries().dom());
        }
        c
    }

    /// Looks `key` up in the memory tier, refreshing its recency on a hit.
    /// A miss leaves the store unchanged; the caller may then consult the
    /// durable tier and `promote` what it finds.
    pub fn get(&mut self, key: &String) -> (r: Option<CacheEntry>)
        requires
            old(self).wf(),
        ensures
            final(self).wf(),
            final(self).entries() == old(self).entries(),
            match r {
                Some(e) => {
                    &&& old(self).entries().contains_key(key@)
                    &&& e@ == old(self).entries()[key@]
                    &&& final(self).order() == promoted(old(self).order(), key@)
                },
                None => {
                    &&& !old(self).entries().contains_key(key@)
                    &&& final(self).order() == old(self).order()
                },
            },
    {
        let r = self.mem.get(key);
        proof {
            if r is Some {
                assert(old(self).order().to_set().contains(key@));
                lemma_promoted_wf(old(self).order(), key@);
            }
        }
        r
    }

    /// Accepts `entry` for `key`: the memory tier takes it when its body is
    /// within the size threshold, evicting by recency when full; an oversized
    /// body leaves memory untouched. Writing the entry's durable records is
    /// the caller's part of `set`.
    pub fn set(&mut self, key: &String, entry: &CacheEntry)
        requires
            old(self).wf(),
        ensures
            final(self).wf(),
            entry.content@.len() > MAX_FILE_SIZE ==> final(self).entries() == old(self).entries()
                && final(self).order() == old(self).order(),
            entry.content@.len() <= MAX_FILE_SIZE ==> final(self).entries() == entries_after_put(
                old(self).entries(),
                old(self).order(),
                key@,
                entry@,
            ) && final(self).order() == order_after_put(
                old(self).entries(),
                old(self).order(),
                key@,
            ),
    {
        if entry.content.len() <= MAX_FILE_SIZE {
            proof {
                lemma_put_preserves_wf(self.entries(), self.order(), key@, entry@);
            }
            self.mem.put(key.clone(), entry.duplicate());
        }
    }

    /// Takes an entry read back from the durable tier: it is promoted into
    /// the memory tier exactly when its body is within the size threshold,
    /// as on `set`.
    pub fn promote(&mut self, key: &String, entry: &CacheEntry)
        requires
            old(self).wf(),
        ensures
            final(self).wf(),
            entry.content@.len() > MAX_FILE_SIZE ==> final(self).entries() == old(self).entries()
                && final(self).order() == old(self).order(),
            entry.content@.len() <= MAX_FILE_SIZE ==> final(self).entries() == entries_after_put(
                old(self).entries(),
                old(self).order(),
                key@,
                entry@,
            ) && final(self).order() == order_after_put(
                old(self).entries(),
                old(self).order(),
                key@,
            ),
    {
        self.set(key, entry)
    }
}

/// What a well-formed store guarantees of its bookkeeping: the recency list
/// names each held key exactly once, and the memory tier never holds more
/// than MAX_CACHE_SIZE entries. These are the facts the eviction law's
/// premises ask of a store's entries and order.
pub proof fn lemma_wf_bookkeeping(c: ProxyCache)
    requires
        c.wf(),
    ensures
        c.entries().dom().finite(),
        c.order().no_duplicates(),
        c.order().to_set() == c.entries().dom(),
        c.order().len() <= MAX_CACHE_SIZE,
        c.entries().dom().len() == c.order().len(),
{
    c.order().unique_seq_to_set();
}

/// Round trip: a `set` of an entry within the memory-tier size threshold
/// binds its key to exactly that entry, so the `get` that follows returns an
/// entry with identical content bytes and metadata.
pub proof fn lemma_set_then_get(
    m: Map<Seq<char>, EntryView>,
    ord: Seq<Seq<char>>,
    k: Seq<char>,
    v: EntryView,
)
    ensures
        entries_after_put(m, ord, k, v).contains_key(k),
        entries_after_put(m, ord, k, v)[k] == v,
{
}

/// Eviction: when a full memory tier takes a fresh key, the least recently
/// used key — and only that key — stops being served from memory.
pub proof fn lemma_eviction(
    m: Map<Seq<char>, EntryView>,
    ord: Seq<Seq<char>>,
    k: Seq<char>,
    v: EntryView,
)
    requires
        ord.no_duplicates(),
        ord.to_set() == m.dom(),
        ord.len() == MAX_CACHE_SIZE,
        !m.contains_key(k),
    ensures
        !entries_after_put(m, ord, k, v).contains_key(ord.last()),
        forall|x: Seq<char>| m.contains_key(x) && x != ord.last()
            ==> entries_after_put(m, ord, k, v).contains_key(x),
{
    assert(!ord.to_set().contains(k));
    assert(ord.contains(ord.last())) by {
        assert(ord[ord.len() - 1] == ord.last());
    }
    assert(k != ord.last());
}

} // verus!
