//! A bounded cache of resolved keys, so that a request from a known signer
//! is judged without another fetch. An entry answers for a limited time only.
use crate::discovery::{ActorPublicKey, ActorPublicKeyView};
use crate::keys::{load_public_key, public_key_readable};
use crate::text::same_text;
use vstd::prelude::*;

verus! {

/// A resolved key and the moment at which it was fetched, in seconds after
/// the Unix epoch.
#[derive(Clone, Debug, PartialEq, Eq)]
pub struct CachedKey {
    pub key: ActorPublicKey,
    pub fetched_at: i64,
}

/// A cached key as plain values.
pub struct CachedKeyView {
    pub key: ActorPublicKeyView,
    pub fetched_at: int,
}

impl View for CachedKey {
    type V = CachedKeyView;

    open spec fn view(&self) -> CachedKeyView {
        CachedKeyView { key: self.key@, fetched_at: self.fetched_at as int }
    }
}

/// The entries of a list as plain values.
pub open spec fn entry_views(entries: Seq<CachedKey>) -> Seq<CachedKeyView> {
    Seq::new(entries.len(), |i: int| entries[i]@)
}

/// The first position at or after `from` whose key has the identifier
/// `key_id`, or the length of the list.
pub open spec fn position_from(entries: Seq<CachedKeyView>, key_id: Seq<char>, from: int) -> int
    decreases entries.len() - from,
{
    if from < 0 || from >= entries.len() {
        entries.len() as int
    } else if entries[from].key.id == key_id {
        from
    } else {
        position_from(entries, key_id, from + 1)
    }
}

/// Whether no two entries hold a key with the same identifier.
pub open spec fn distinct_ids(entries: Seq<CachedKeyView>) -> bool {
    forall|i: int, j: int|
        0 <= i < j < entries.len() ==> (#[trigger] entries[i]).key.id != (
        #[trigger] entries[j]).key.id
}

/// The position, among the first `n` entries, of the first one that was
/// fetched earliest.
pub open spec fn oldest_among(entries: Seq<CachedKeyView>, n: int) -> int
    decreases n,
{
    if n <= 1 {
        0
    } else {
        let best = oldest_among(entries, n - 1);
        if entries[n - 1].fetched_at < entries[best].fetched_at {
            n - 1
        } else {
            best
        }
    }
}

/// Whether an entry answers at `now`: it was fetched at most `ttl` seconds
/// before, and not after.
pub open spec fn alive(entry: CachedKeyView, now: int, ttl: int) -> bool {
    entry.fetched_at <= now <= entry.fetched_at + ttl
}

/// The key that a list of entries gives for an identifier at `now`.
pub open spec fn found(entries: Seq<CachedKeyView>, key_id: Seq<char>, now: int, ttl: int) -> Option<
    ActorPublicKeyView,
> {
    let at = position_from(entries, key_id, 0);
    if at < entries.len() && alive(entries[at], now, ttl) {
        Some(entries[at].key)
    } else {
        None
    }
}

/// A list of entries after one more is stored. It takes the place of the
/// entry with the same identifier, if there is one. Else it is added at the
/// end; where the list is full, the entry that was fetched earliest leaves
/// first. A cache without room stores nothing.
pub open spec fn stored(entries: Seq<CachedKeyView>, entry: CachedKeyView, capacity: int) -> Seq<
    CachedKeyView,
> {
    let at = position_from(entries, entry.key.id, 0);
    if at < entries.len() {
        entries.update(at, entry)
    } else if entries.len() < capacity {
        entries.push(entry)
    } else if entries.len() == 0 {
        entries
    } else {
        entries.remove(oldest_among(entries, entries.len() as int)).push(entry)
    }
}

/// What `position_from` finds: the first entry with the identifier, or the
/// end of a list without one.
pub proof fn lemma_position_from(entries: Seq<CachedKeyView>, key_id: Seq<char>, from: int)
    requires
        0 <= from <= entries.len(),
    ensures
        from <= position_from(entries, key_id, from) <= entries.len(),
        position_from(entries, key_id, from) < entries.len() ==> entries[position_from(
            entries,
            key_id,
            from,
        )].key.id == key_id,
        forall|j: int|
            from <= j < position_from(entries, key_id, from) ==> (#[trigger] entries[j]).key.id
                != key_id,
    decreases entries.len() - from,
{
    if from < entries.len() && entries[from].key.id != key_id {
        lemma_position_from(entries, key_id, from + 1);
    }
}

/// A position that holds the identifier, with none before it, is the one
/// that `position_from` finds.
pub proof fn lemma_position_is(entries: Seq<CachedKeyView>, key_id: Seq<char>, from: int, at: int)
    requires
        0 <= from <= at <= entries.len(),
        at < entries.len() ==> entries[at].key.id == key_id,
        forall|j: int| from <= j < at ==> (#[trigger] entries[j]).key.id != key_id,
    ensures
        position_from(entries, key_id, from) == at,
    decreases at - from,
{
    if from < at {
        lemma_position_is(entries, key_id, from + 1, at);
    }
}

/// The earliest entry among the first `n` lies among them.
pub proof fn lemma_oldest_among(entries: Seq<CachedKeyView>, n: int)
    requires
        1 <= n <= entries.len(),
    ensures
        0 <= oldest_among(entries, n) < n,
        forall|j: int|
            0 <= j < n ==> entries[oldest_among(entries, n)].fetched_at <= (
            #[trigger] entries[j]).fetched_at,
    decreases n,
{
    if n > 1 {
        lemma_oldest_among(entries, n - 1);
    }
}

/// Storing keeps a list within its capacity and its identifiers distinct.
pub proof fn lemma_stored_is_sound(
    entries: Seq<CachedKeyView>,
    entry: CachedKeyView,
    capacity: int,
)
    requires
        distinct_ids(entries),
        entries.len() <= capacity,
    ensures
        distinct_ids(stored(entries, entry, capacity)),
        stored(entries, entry, capacity).len() <= capacity,
{
    let at = position_from(entries, entry.key.id, 0);
    let after = stored(entries, entry, capacity);
    lemma_position_from(entries, entry.key.id, 0);
    if at < entries.len() {
        assert forall|i: int, j: int| 0 <= i < j < after.len() implies (#[trigger] after[i]).key.id
            != (#[trigger] after[j]).key.id by {
            assert(entries[i].key.id != entries[j].key.id);
            if i == at {
                assert(entries[at].key.id != entries[j].key.id);
            } else if j == at {
                assert(entries[i].key.id != entries[at].key.id);
            }
        }
    } else if entries.len() < capacity {
        assert forall|i: int, j: int| 0 <= i < j < after.len() implies (#[trigger] after[i]).key.id
            != (#[trigger] after[j]).key.id by {
            if j < entries.len() {
                assert(entries[i].key.id != entries[j].key.id);
            } else {
                assert(entries[i].key.id != entry.key.id);
            }
        }
    } else if entries.len() > 0 {
        let victim = oldest_among(entries, entries.len() as int);
        lemma_oldest_among(entries, entries.len() as int);
        let kept = entries.remove(victim);
        assert forall|i: int, j: int| 0 <= i < j < after.len() implies (#[trigger] after[i]).key.id
            != (#[trigger] after[j]).key.id by {
            let from_i = if i < victim {
                i
            } else {
                i + 1
            };
            assert(after[i] == entries[from_i]);
            if j < kept.len() {
                let from_j = if j < victim {
                    j
                } else {
                    j + 1
                };
                assert(after[j] == entries[from_j]);
                assert(entries[from_i].key.id != entries[from_j].key.id);
            } else {
                assert(entries[from_i].key.id != entry.key.id);
            }
        }
    }
}

/// What is stored is found: in a cache with room for at least one entry, the
/// key that was just stored is the answer for its identifier as long as the
/// entry is alive.
pub proof fn lemma_found_after_stored(
    entries: Seq<CachedKeyView>,
    entry: CachedKeyView,
    capacity: int,
    now: int,
    ttl: int,
)
    requires
        distinct_ids(entries),
        entries.len() <= capacity,
        capacity > 0,
        alive(entry, now, ttl),
    ensures
        found(stored(entries, entry, capacity), entry.key.id, now, ttl) == Some(entry.key),
{
    let at = position_from(entries, entry.key.id, 0);
    let after = stored(entries, entry, capacity);
    lemma_position_from(entries, entry.key.id, 0);
    if at < entries.len() {
        lemma_position_is(after, entry.key.id, 0, at);
    } else if entries.len() < capacity {
        lemma_position_is(after, entry.key.id, 0, entries.len() as int);
    } else {
        let victim = oldest_among(entries, entries.len() as int);
        lemma_oldest_among(entries, entries.len() as int);
        assert forall|j: int| 0 <= j < after.len() - 1 implies (#[trigger] after[j]).key.id
            != entry.key.id by {
            let from_j = if j < victim {
                j
            } else {
                j + 1
            };
            assert(after[j] == entries[from_j]);
        }
        lemma_position_is(after, entry.key.id, 0, after.len() - 1);
    }
}

/// Storing a key leaves the answers for other identifiers as they were,
/// unless the list was full and an entry had to leave.
pub proof fn lemma_others_kept(
    entries: Seq<CachedKeyView>,
    entry: CachedKeyView,
    capacity: int,
    other: Seq<char>,
    now: int,
    ttl: int,
)
    requires
        distinct_ids(entries),
        other != entry.key.id,
        position_from(entries, entry.key.id, 0) < entries.len() || entries.len() < capacity,
    ensures
        found(stored(entries, entry, capacity), other, now, ttl) == found(entries, other, now, ttl),
{
    let at = position_from(entries, entry.key.id, 0);
    let at_other = position_from(entries, other, 0);
    let after = stored(entries, entry, capacity);
    lemma_position_from(entries, entry.key.id, 0);
    lemma_position_from(entries, other, 0);
    if at_other < entries.len() {
        assert(after[at_other] == entries[at_other]);
        assert forall|j: int| 0 <= j < at_other implies (#[trigger] after[j]).key.id != other by {
            if j != at {
                assert(after[j] == entries[j]);
            }
        }
        lemma_position_is(after, other, 0, at_other);
    } else {
        assert forall|j: int| 0 <= j < after.len() implies (#[trigger] after[j]).key.id != other by {
            if j < entries.len() && j != at {
                assert(after[j] == entries[j]);
            }
        }
        lemma_position_is(after, other, 0, after.len() as int);
    }
}

/// A copy of a published key.
pub fn copy_key(key: &ActorPublicKey) -> (r: ActorPublicKey)
    ensures
        r@ == key@,
{
    ActorPublicKey {
        id: key.id.clone(),
        owner: key.owner.clone(),
        public_key_pem: key.public_key_pem.clone(),
    }
}

/// The first position whose key has the identifier `key_id`, or the length
/// of the list.
fn find_entry(entries: &Vec<CachedKey>, key_id: &str) -> (r: usize)
    ensures
        r == position_from(entry_views(entries@), key_id@, 0),
        r <= entries@.len(),
{
    let mut i: usize = 0;
    while i < entries.len()
        invariant
            i <= entries@.len(),
            position_from(entry_views(entries@), key_id@, 0) == position_from(
                entry_views(entries@),
                key_id@,
                i as int,
            ),
        decreases entries@.len() - i,
    {
        if same_text(entries[i].key.id.as_str(), key_id) {
            return i;
        }
        i += 1;
    }
    i
}

/// The position of the first entry that was fetched earliest.
fn oldest_entry(entries: &Vec<CachedKey>) -> (r: usize)
    requires
        entries@.len() > 0,
    ensures
        r == oldest_among(entry_views(entries@), entries@.len() as int),
        r < entries@.len(),
{
    let mut best: usize = 0;
    let mut i: usize = 1;
    while i < entries.len()
        invariant
            1 <= i <= entries@.len(),
            best < i,
            best == oldest_among(entry_views(entries@), i as int),
        decreases entries@.len() - i,
    {
        if entries[i].fetched_at < entries[best].fetched_at {
            best = i;
        }
        i += 1;
    }
    best
}

/// A bounded cache of resolved keys, by key identifier.
#[derive(Debug)]
pub struct KeyCache {
    entries: Vec<CachedKey>,
    ttl_seconds: u64,
    capacity: usize,
}

impl KeyCache {
    /// The entries of the cache, in the order in which they were added.
    pub closed spec fn entries(&self) -> Seq<CachedKeyView> {
        entry_views(self.entries@)
    }

    /// For how many seconds an entry answers.
    pub closed spec fn ttl(&self) -> int {
        self.ttl_seconds as int
    }

    /// How many entries the cache holds at most.
    pub closed spec fn capacity(&self) -> int {
        self.capacity as int
    }

    /// No identifier is cached twice, and the cache is within its capacity.
    #[verifier::type_invariant]
    pub open spec fn wf(&self) -> bool {
        distinct_ids(self.entries()) && self.entries().len() <= self.capacity()
    }

    /// An empty cache whose entries answer for `ttl_seconds` seconds and which
    /// holds at most `capacity` of them.
    pub fn new(ttl_seconds: u64, capacity: usize) -> (r: KeyCache)
        ensures
            r.entries() == Seq::<CachedKeyView>::empty(),
            r.ttl() == ttl_seconds,
            r.capacity() == capacity,
    {
        let cache = KeyCache { entries: Vec::new(), ttl_seconds, capacity };
        proof {
            assert(cache.entries() =~= Seq::<CachedKeyView>::empty());
        }
        cache
    }

    /// The number of entries, alive or not.
    pub fn len(&self) -> (r: usize)
        ensures
            r == self.entries().len(),
            r <= self.capacity(),
            self.wf(),
    {
        proof {
            use_type_invariant(self);
        }
        self.entries.len()
    }

    /// The cached key for an identifier, where there is one that was fetched
    /// at most `ttl` seconds before `now`, and not after `now`.
    pub fn lookup(&self, key_id: &str, now: i64) -> (r: Option<ActorPublicKey>)
        ensures
            match found(self.entries(), key_id@, now as int, self.ttl()) {
                Some(key) => r matches Some(copy) && copy@ == key,
                None => r is None,
            },
    {
        let at = find_entry(&self.entries, key_id);
        if at >= self.entries.len() {
            return None;
        }
        let entry = &self.entries[at];
        let age: i128 = now as i128 - entry.fetched_at as i128;
        if 0 <= age && age <= self.ttl_seconds as i128 {
            Some(copy_key(&entry.key))
        } else {
            None
        }
    }

    /// Stores a key that was fetched at `now`, under the identifier that the
    /// key itself carries. It replaces the entry of the same identifier; else
    /// it is added, and where the cache is full the entry that was fetched
    /// earliest makes room for it.
    fn insert(&mut self, key: ActorPublicKey, now: i64)
        ensures
            final(self).entries() == stored(
                old(self).entries(),
                CachedKeyView { key: key@, fetched_at: now as int },
                old(self).capacity(),
            ),
            final(self).ttl() == old(self).ttl(),
            final(self).capacity() == old(self).capacity(),
            final(self).wf(),
    {
        proof {
            use_type_invariant(&*self);
            lemma_stored_is_sound(
                self.entries(),
                CachedKeyView { key: key@, fetched_at: now as int },
                self.capacity(),
            );
        }
        let ghost before = self.entries();
        let ghost added = CachedKeyView { key: key@, fetched_at: now as int };
        let at = find_entry(&self.entries, key.id.as_str());
        let entry = CachedKey { key, fetched_at: now };
        let mut entries: Vec<CachedKey> = Vec::new();
        std::mem::swap(&mut self.entries, &mut entries);
        if at < entries.len() {
            entries.set(at, entry);
            proof {
                assert(entry_views(entries@) =~= before.update(at as int, added));
            }
        } else if entries.len() < self.capacity {
            entries.push(entry);
            proof {
                assert(entry_views(entries@) =~= before.push(added));
            }
        } else if entries.len() > 0 {
            let victim = oldest_entry(&entries);
            entries.remove(victim);
            entries.push(entry);
            proof {
                assert(entry_views(entries@) =~= before.remove(victim as int).push(added));
            }
        }
        self.entries = entries;
    }

    /// Whether what was fetched for an identifier may answer for it: it is
    /// published under that identifier, and its text is a public key.
    pub open spec fn answers_for(key_id: Seq<char>, fetched: ActorPublicKeyView) -> bool {
        fetched.id == key_id && public_key_readable(fetched.public_key_pem)
    }

    /// Takes in the key that was fetched at `now` for the identifier `key_id`,
    /// and says whether it may answer for that identifier. A key that is
    /// published under another identifier than the one that was asked for, or
    /// whose text is no public key, is refused, and the cache stays as it
    /// was: what is fetched for one identifier never answers for another. A
    /// key that may answer replaces the entry of its identifier; else it is
    /// added, and where the cache is full the entry that was fetched earliest
    /// makes room for it. A cache without room stores nothing.
    pub fn remember(&mut self, key_id: &str, fetched: ActorPublicKey, now: i64) -> (r: bool)
        ensures
            r == Self::answers_for(key_id@, fetched@),
            r ==> final(self).entries() == stored(
                old(self).entries(),
                CachedKeyView { key: fetched@, fetched_at: now as int },
                old(self).capacity(),
            ),
            !r ==> final(self).entries() == old(self).entries(),
            final(self).ttl() == old(self).ttl(),
            final(self).capacity() == old(self).capacity(),
            final(self).wf(),
    {
        proof {
            use_type_invariant(&*self);
        }
        if !same_text(fetched.id.as_str(), key_id) {
            return false;
        }
        if load_public_key(fetched.public_key_pem.as_str()).is_err() {
            return false;
        }
        self.insert(fetched, now);
        true
    }
}

} // verus!
