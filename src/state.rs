//! Session state that outlives one call: the staged operation and the
//! working context, plus the counters of the file cache.
use crate::editor::edit_position::EditPosition;
use crate::languages::LanguageName;
use crate::selector::Selector;
use vstd::prelude::*;

verus! {

/// Hit and miss counters of the file cache.
#[derive(Debug, Clone, Copy, PartialEq, Eq, Structural)]
pub struct CacheStats {
    pub hits: u64,
    pub misses: u64,
    pub total_requests: u64,
}

impl CacheStats {
    pub open spec fn new_spec() -> CacheStats {
        CacheStats { hits: 0, misses: 0, total_requests: 0 }
    }

    /// All counters at zero.
    pub fn new() -> (r: Self)
        ensures
            r == Self::new_spec(),
    {
        CacheStats { hits: 0, misses: 0, total_requests: 0 }
    }

    /// Counts one lookup, a hit or a miss; counters saturate at their maximum.
    pub fn record(&mut self, hit: bool)
        ensures
            final(self).total_requests == sat_inc(old(self).total_requests),
            final(self).hits == if hit { sat_inc(old(self).hits) } else { old(self).hits },
            final(self).misses == if hit { old(self).misses } else { sat_inc(old(self).misses) },
    {
        self.total_requests = self.total_requests.saturating_add(1);
        if hit {
            self.hits = self.hits.saturating_add(1);
        } else {
            self.misses = self.misses.saturating_add(1);
        }
    }
}

pub open spec fn sat_inc(x: u64) -> u64 {
    if x == u64::MAX {
        x
    } else {
        (x + 1) as u64
    }
}

#[verifier::external_type_specification]
#[verifier::external_body]
#[verifier::reject_recursive_types(K)]
#[verifier::reject_recursive_types(V)]
#[verifier::reject_recursive_types(S)]
pub struct ExLruCache<K, V, S>(lru::LruCache<K, V, S>);

#[verifier::external_type_specification]
#[verifier::external_body]
pub struct ExDefaultHasher(lru::DefaultHasher);

/// What an LRU cache of file contents holds: path to text.
pub uninterp spec fn cached_entries(c: lru::LruCache<String, String>) -> Map<Seq<char>, Seq<char>>;

/// The capacity an LRU cache was made with.
pub uninterp spec fn cache_bound(c: lru::LruCache<String, String>) -> nat;

/// Relies on `lru::LruCache::new`: an empty cache of that capacity.
#[verifier::external_body]
fn lru_new(cap: usize) -> (r: lru::LruCache<String, String>)
    requires
        cap > 0,
    ensures
        cached_entries(r).dom().finite(),
        cached_entries(r).len() == 0,
        cache_bound(r) == cap,
{
    lru::LruCache::new(std::num::NonZeroUsize::new(cap).unwrap())
}

/// Relies on `lru::LruCache::get`: the value of the key, if present; only
/// the recency order changes.
#[verifier::external_body]
fn lru_get(c: &mut lru::LruCache<String, String>, key: &str) -> (r: Option<String>)
    ensures
        cached_entries(*final(c)) == cached_entries(*old(c)),
        cache_bound(*final(c)) == cache_bound(*old(c)),
        r is Some <==> cached_entries(*old(c)).contains_key(key@),
        r is Some ==> r->0@ == cached_entries(*old(c))[key@],
{
    c.get(key).cloned()
}

/// Relies on `lru::LruCache::put`: stores the pair; a present key gets the
/// new value and its old value comes back; a new key in a full cache
/// evicts one other entry, the least recently used.
#[verifier::external_body]
fn lru_put(c: &mut lru::LruCache<String, String>, key: String, value: String) -> (r: Option<String>)
    ensures
        cache_bound(*final(c)) == cache_bound(*old(c)),
        cached_entries(*old(c)).contains_key(key@) ==> r is Some && r->0@ == cached_entries(*old(c))[key@]
            && cached_entries(*final(c)) == cached_entries(*old(c)).insert(key@, value@),
        !cached_entries(*old(c)).contains_key(key@) ==> r is None,
        !cached_entries(*old(c)).contains_key(key@) && cached_entries(*old(c)).len() < cache_bound(*old(c))
            ==> cached_entries(*final(c)) == cached_entries(*old(c)).insert(key@, value@),
        !cached_entries(*old(c)).contains_key(key@) && cached_entries(*old(c)).len() >= cache_bound(*old(c))
            ==> exists|gone: Seq<char>|
            cached_entries(*old(c)).contains_key(gone) && cached_entries(*final(c))
                == #[trigger] cached_entries(*old(c)).remove(gone).insert(key@, value@),
{
    c.put(key, value)
}

/// Relies on `lru::LruCache::cap`.
#[verifier::external_body]
fn lru_cap(c: &lru::LruCache<String, String>) -> (r: usize)
    ensures
        r == cache_bound(*c),
{
    c.cap().get()
}

/// Relies on `lru::LruCache::len`: the number of entries.
#[verifier::external_body]
fn lru_len(c: &lru::LruCache<String, String>) -> (r: usize)
    ensures
        r == cached_entries(*c).len(),
{
    c.len()
}

/// An LRU cache of file contents that counts its hits and misses.
pub struct StatsLruCache {
    cache: lru::LruCache<String, String>,
    stats: CacheStats,
}

impl StatsLruCache {
    pub closed spec fn entries(&self) -> Map<Seq<char>, Seq<char>> {
        cached_entries(self.cache)
    }

    pub closed spec fn bound(&self) -> nat {
        cache_bound(self.cache)
    }

    pub closed spec fn spec_stats(&self) -> CacheStats {
        self.stats
    }

    /// An empty cache of capacity `cap`, counters at zero.
    pub fn new(cap: usize) -> (r: Self)
        requires
            cap > 0,
        ensures
            r.entries().dom().finite(),
            r.entries().len() == 0,
            r.bound() == cap,
            r.spec_stats() == CacheStats::new_spec(),
    {
        StatsLruCache { cache: lru_new(cap), stats: CacheStats::new() }
    }

    /// The cached text, counting the lookup as a hit or a miss.
    pub fn get(&mut self, key: &str) -> (r: Option<String>)
        ensures
            final(self).entries() == old(self).entries(),
            final(self).bound() == old(self).bound(),
            r is Some <==> old(self).entries().contains_key(key@),
            r is Some ==> r->0@ == old(self).entries()[key@],
            final(self).spec_stats().total_requests == sat_inc(old(self).spec_stats().total_requests),
            final(self).spec_stats().hits == if r is Some {
                sat_inc(old(self).spec_stats().hits)
            } else {
                old(self).spec_stats().hits
            },
            final(self).spec_stats().misses == if r is Some {
                old(self).spec_stats().misses
            } else {
                sat_inc(old(self).spec_stats().misses)
            },
    {
        let value = lru_get(&mut self.cache, key);
        self.stats.record(value.is_some());
        value
    }

    /// Stores a text; the counters do not change.
    pub fn put(&mut self, key: String, value: String) -> (r: Option<String>)
        ensures
            final(self).spec_stats() == old(self).spec_stats(),
            final(self).bound() == old(self).bound(),
            final(self).entries().contains_key(key@) && final(self).entries()[key@] == value@,
            old(self).entries().contains_key(key@) ==> r is Some && r->0@ == old(self).entries()[key@],
            !old(self).entries().contains_key(key@) ==> r is None,
    {
        let r = lru_put(&mut self.cache, key, value);
        proof {
            let o = cached_entries(self.cache);
            if !old(self).entries().contains_key(key@) && old(self).entries().len() >= old(self).bound() {
                let gone = choose|gone: Seq<char>|
                    old(self).entries().contains_key(gone) && o == #[trigger] old(self).entries().remove(gone).insert(key@, value@);
                assert(o == old(self).entries().remove(gone).insert(key@, value@));
            }
        }
        r
    }

    pub fn cap(&self) -> (r: usize)
        ensures
            r == self.bound(),
    {
        lru_cap(&self.cache)
    }

    pub fn len(&self) -> (r: usize)
        ensures
            r == self.entries().len(),
    {
        lru_len(&self.cache)
    }

    pub fn is_empty(&self) -> (r: bool)
        ensures
            r == (self.entries().len() == 0),
    {
        lru_len(&self.cache) == 0
    }

    pub fn stats(&self) -> (r: &CacheStats)
        ensures
            *r == self.spec_stats(),
    {
        &self.stats
    }

    /// Resets the counters; the entries stay.
    pub fn clear_stats(&mut self)
        ensures
            final(self).spec_stats() == CacheStats::new_spec(),
            final(self).entries() == old(self).entries(),
    {
        self.stats = CacheStats::new();
    }
}

/// An edit that has been previewed and can be committed: what to do, to
/// which file, and where, once a preview has pinned the position.
#[derive(Debug, Clone)]
pub struct StagedOperation {
    pub selector: Selector,
    pub content: String,
    pub file_path: String,
    pub language_name: LanguageName,
    pub edit_position: Option<EditPosition>,
}

impl StagedOperation {
    /// Points the operation at a new target; content, file and language
    /// stay, and the position pinned for the old target is dropped so that
    /// the next preview resolves the new one.
    pub fn retarget(&mut self, selector: Selector)
        ensures
            final(self).selector == selector,
            final(self).content == old(self).content,
            final(self).file_path == old(self).file_path,
            final(self).language_name == old(self).language_name,
            final(self).edit_position is None,
    {
        self.selector = selector;
        self.edit_position = None;
    }
}

/// What one session keeps between calls.
#[derive(Debug, Clone)]
pub struct SemanticEditSessionData {
    pub context_path: Option<String>,
    pub staged_operation: Option<StagedOperation>,
}

impl SemanticEditSessionData {
    /// No context and nothing staged.
    pub fn new() -> (r: Self)
        ensures
            r.context_path is None,
            r.staged_operation is None,
    {
        SemanticEditSessionData { context_path: None, staged_operation: None }
    }
}

} // verus!
