//! The bounded response cache: serialized response bodies keyed by fingerprint.
//!
//! The storage is a `moka::sync::Cache`. Verus cannot see inside it, so its
//! contents are named by [`cached_bodies`] and its bound by [`entry_limit`],
//! and the calls that the library makes are given contracts over those names.
//! Everything else in this module is proved from those contracts.
//!
//! `moka` changes a cache behind a shared reference. A contract can only
//! speak of a change to something that is borrowed mutably, so the
//! operations here take `&mut self`, and the contracts describe a cache that
//! is reached through this one handle: a caller that shares a cache between
//! tasks serializes access to it.
use moka::sync::Cache;
use vstd::prelude::*;

verus! {

#[verifier::external_type_specification]
#[verifier::external_body]
#[verifier::reject_recursive_types(K)]
#[verifier::reject_recursive_types(V)]
#[verifier::reject_recursive_types(S)]
pub struct ExCache<K, V, S>(Cache<K, V, S>);

/// What a cache holds, as a mathematical map from fingerprint to body.
pub type Entries = Map<Seq<char>, Seq<char>>;

/// Every entry of `part` is an entry of `whole`: the same body under the same
/// fingerprint. This is how a cache under capacity pressure relates to what
/// was put into it: entries may be dropped, none is invented or altered.
pub open spec fn part_of(part: Entries, whole: Entries) -> bool {
    forall|fingerprint: Seq<char>| #[trigger]
        part.contains_key(fingerprint) ==> whole.contains_key(fingerprint) && part[fingerprint]
            == whole[fingerprint]
}

/// Whether `entries` are within a bound: finitely many, and no more than
/// `limit` where there is one. A cache whose entries are within its bound is
/// under no capacity pressure.
pub open spec fn within(entries: Entries, limit: Option<u64>) -> bool {
    &&& entries.dom().finite()
    &&& limit matches Some(most) ==> entries.dom().len() <= most
}

/// What a cache bounded by `limit` may have kept of the entries `given` to
/// it: all of them where they are within the bound, and a part of them where
/// they are not.
pub open spec fn kept_from(kept: Entries, given: Entries, limit: Option<u64>) -> bool {
    &&& part_of(kept, given)
    &&& within(given, limit) ==> kept == given
}

/// Entries that are within a bound with one more written were within it
/// before.
pub proof fn lemma_within_before_insert(
    entries: Entries,
    fingerprint: Seq<char>,
    body: Seq<char>,
    limit: Option<u64>,
)
    requires
        within(entries.insert(fingerprint, body), limit),
    ensures
        within(entries, limit),
{
    vstd::set_lib::lemma_len_subset(entries.dom(), entries.insert(fingerprint, body).dom());
}

/// The entries that a `moka` cache holds: fingerprint to body.
pub uninterp spec fn cached_bodies(cache: Cache<String, String>) -> Map<Seq<char>, Seq<char>>;

/// The maximum number of entries that a `moka` cache was built with, if it
/// was built with one.
pub uninterp spec fn entry_limit(cache: Cache<String, String>) -> Option<u64>;

/// `moka::sync::Cache::new`: an empty cache that is bounded by `max_entries`.
#[verifier::external_body]
fn moka_new(max_entries: u64) -> (cache: Cache<String, String>)
    ensures
        cached_bodies(cache) == Entries::empty(),
        entry_limit(cache) == Some(max_entries),
{
    Cache::new(max_entries)
}

/// `moka::sync::Cache::policy` and `Policy::max_capacity`: the bound that the
/// cache was built with.
#[verifier::external_body]
fn moka_limit(cache: &Cache<String, String>) -> (limit: Option<u64>)
    ensures
        limit == entry_limit(*cache),
{
    cache.policy().max_capacity()
}

/// `moka::sync::Cache::get`: a clone of the body stored under `key`, or
/// `None` when the cache holds no entry for it. The read is recorded for the
/// eviction policy, and pending maintenance may run, so entries may leave the
/// cache; none is added or altered. Maintenance evicts only from a cache
/// that holds more than its bound, so a cache within its bound is left as it
/// was.
#[verifier::external_body]
fn moka_get(cache: &mut Cache<String, String>, key: &str) -> (found: Option<String>)
    ensures
        found matches Some(body) ==> cached_bodies(*old(cache)).contains_key(key@) && body@
            == cached_bodies(*old(cache))[key@],
        found is None ==> !cached_bodies(*old(cache)).contains_key(key@),
        kept_from(
            cached_bodies(*final(cache)),
            cached_bodies(*old(cache)),
            entry_limit(*old(cache)),
        ),
        entry_limit(*final(cache)) == entry_limit(*old(cache)),
{
    cache.get(key)
}

/// `moka::sync::Cache::insert`: stores `value` under `key`, replacing what
/// was there. Where that keeps the cache within its bound, the entry is
/// admitted and nothing is evicted. Where it does not, the admission policy
/// may turn the new entry away and maintenance may evict others, so the
/// cache holds a part of the old entries with the new one written over
/// them; which part is left open.
#[verifier::external_body]
fn moka_insert(cache: &mut Cache<String, String>, key: String, value: String)
    ensures
        kept_from(
            cached_bodies(*final(cache)),
            cached_bodies(*old(cache)).insert(key@, value@),
            entry_limit(*old(cache)),
        ),
        entry_limit(*final(cache)) == entry_limit(*old(cache)),
{
    cache.insert(key, value)
}

/// The number of entries that a cache holds at most unless told otherwise.
pub const DEFAULT_CAPACITY: u64 = 1000;

/// A bounded mapping from fingerprint to serialized response body.
pub struct ResponseCache {
    store: Cache<String, String>,
}

impl View for ResponseCache {
    type V = Entries;

    closed spec fn view(&self) -> Entries {
        cached_bodies(self.store)
    }
}

impl ResponseCache {
    /// The capacity that the cache was built with.
    pub closed spec fn spec_capacity(&self) -> Option<u64> {
        entry_limit(self.store)
    }

    /// An empty cache that keeps at most `max_entries` entries.
    pub fn new(max_entries: u64) -> (cache: Self)
        ensures
            cache@ == Entries::empty(),
            cache.spec_capacity() == Some(max_entries),
    {
        ResponseCache { store: moka_new(max_entries) }
    }

    /// The capacity that the cache was built with.
    #[verifier::when_used_as_spec(spec_capacity)]
    pub fn capacity(&self) -> (limit: Option<u64>)
        ensures
            limit == self.spec_capacity(),
    {
        moka_limit(&self.store)
    }

    /// The body stored for `fingerprint`, if the cache holds one. Looking an
    /// entry up never adds or changes one. Capacity pressure may drop some;
    /// a cache within its capacity is left as it was.
    pub fn get(&mut self, fingerprint: &str) -> (found: Option<String>)
        ensures
            found matches Some(body) ==> old(self)@.contains_key(fingerprint@) && body@ == old(
                self,
            )@[fingerprint@],
            found is None ==> !old(self)@.contains_key(fingerprint@),
            kept_from(final(self)@, old(self)@, old(self).spec_capacity()),
            final(self).spec_capacity() == old(self).spec_capacity(),
    {
        moka_get(&mut self.store, fingerprint)
    }

    /// Stores `body` under `fingerprint`, overwriting an earlier entry.
    ///
    /// Where the cache stays within its capacity, it holds the new entry
    /// beside all the old ones afterwards. Where it does not, which entries
    /// capacity pressure drops is left open: every entry of the cache is the
    /// new one or an old one under another fingerprint. Either way no
    /// earlier body is left under `fingerprint`.
    pub fn insert(&mut self, fingerprint: String, body: String)
        ensures
            kept_from(
                final(self)@,
                old(self)@.insert(fingerprint@, body@),
                old(self).spec_capacity(),
            ),
            final(self)@.contains_key(fingerprint@) ==> final(self)@[fingerprint@] == body@,
            final(self).spec_capacity() == old(self).spec_capacity(),
    {
        moka_insert(&mut self.store, fingerprint, body)
    }
}

} // verus!
